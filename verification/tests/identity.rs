use tanos::crypto::SigningKey;
use tanos::identity::{
    derive_tan_id, identity_dir, identity_exists, identity_file, load_identity,
    load_or_create_identity, name_file, save_identity, HomeEnv, IdentityError, KeyFile,
    NodeIdentity, StoragePath,
};

const SEED: &str = "9d61b19deffd5a60ba844af492ec2cc44449c5697b326919703bac031cae7f60";

fn seed() -> [u8; 32] {
    let mut buf = [0u8; 32];
    buf.copy_from_slice(&hex::decode(SEED).expect("hexadecimal text"));
    buf
}

fn env(tanos_dir: Option<&str>, home: Option<&str>, marker: bool, base: Option<&str>) -> HomeEnv {
    HomeEnv {
        tanos_dir: tanos_dir.map(str::to_string),
        home: home.map(str::to_string),
        termux_marker: marker,
        base_home: base.map(str::to_string),
    }
}

fn parts(path: &StoragePath) -> (String, Vec<String>) {
    (path.root.clone(), path.parts.clone())
}

fn strings(v: &[&str]) -> Vec<String> {
    v.iter().map(|s| s.to_string()).collect()
}

#[test]
fn generate_identity_produces_valid_tan_id() {
    let id = NodeIdentity::generate(None);
    // tan_id is hex of 8 bytes → 16 hex chars
    assert_eq!(id.tan_id.len(), 16);
    assert!(hex::decode(&id.tan_id).is_ok());
}

#[test]
fn roundtrip_secret_bytes() {
    let original = NodeIdentity::generate(Some("Alice".to_string()));
    let original_name = original.friendly_name.clone();
    let restored = NodeIdentity::from_secret_bytes(&original.secret_key_bytes(), original_name);
    assert_eq!(original.tan_id, restored.tan_id);
    assert_eq!(original.public_key_bytes(), restored.public_key_bytes());
}

#[test]
fn persist_and_reload_identity() {
    let id1 = NodeIdentity::generate(None);
    let home = env(Some("/data"), None, false, None);
    let plan = save_identity(&home, &id1).expect("there is a directory");

    let raw = plan.key_bytes.to_vec();
    let mut bytes = [0u8; 32];
    bytes.copy_from_slice(&raw);
    let id2 = NodeIdentity::from_secret_bytes(&bytes, "Unknown".to_string());

    assert_eq!(id1.tan_id, id2.tan_id);
}

#[test]
fn known_seed_has_known_id() {
    let id = NodeIdentity::from_secret_bytes(&seed(), "Alice".to_string());
    assert_eq!(id.tan_id, "d75a980182b10ab7");
    assert_eq!(id.friendly_name, "Alice");
    assert_eq!(id.secret_key_bytes(), seed());
    assert_eq!(derive_tan_id(&SigningKey::from_bytes(&seed()).verifying_key()), id.tan_id);
}

#[test]
fn default_name_comes_from_the_id() {
    let id = NodeIdentity::generate(None);
    assert_eq!(id.friendly_name, format!("tan-{}", &id.tan_id[..4]));
    let named = NodeIdentity::generate(Some("Bob".to_string()));
    assert_eq!(named.friendly_name, "Bob");
    assert_ne!(id.tan_id, named.tan_id);
}

#[test]
fn directory_by_environment() {
    let named = identity_dir(&env(Some("/data"), Some("/h"), true, Some("/b"))).expect("named");
    assert_eq!(parts(&named), ("/data".to_string(), strings(&[])));
    let marked = identity_dir(&env(None, Some("/h"), true, Some("/b"))).expect("marked");
    assert_eq!(parts(&marked), ("/h".to_string(), strings(&[".tanos"])));
    let termux = "/data/data/com.termux/files/home";
    let by_path = identity_dir(&env(None, Some(termux), false, Some("/b"))).expect("termux");
    assert_eq!(parts(&by_path), (termux.to_string(), strings(&[".tanos"])));
    let plain = identity_dir(&env(None, Some("/h"), false, Some("/b"))).expect("plain");
    assert_eq!(parts(&plain), ("/b".to_string(), strings(&[".tanos"])));
    let none = identity_dir(&env(None, Some("/h"), false, None));
    assert!(matches!(none, Err(IdentityError::NoHome)));
}

#[test]
fn files_stand_in_the_directory() {
    let home = env(None, None, false, Some("/b"));
    let key = identity_file(&home).expect("key file");
    assert_eq!(parts(&key), ("/b".to_string(), strings(&[".tanos", "identity.key"])));
    let name = name_file(&home).expect("name file");
    assert_eq!(parts(&name), ("/b".to_string(), strings(&[".tanos", "identity.name"])));
    assert_eq!(identity_exists(&home, true), Ok(true));
    assert_eq!(identity_exists(&home, false), Ok(false));
    let homeless = env(None, None, false, None);
    assert_eq!(identity_exists(&homeless, true), Err(IdentityError::NoHome));
    assert!(matches!(identity_file(&homeless), Err(IdentityError::NoHome)));
    assert!(matches!(name_file(&homeless), Err(IdentityError::NoHome)));
}

#[test]
fn loading_reports_what_is_wrong() {
    let home = env(Some("/data"), None, false, None);
    let missing = load_identity(&home, KeyFile::Missing, None).err();
    assert_eq!(missing, Some(IdentityError::Missing));
    let unreadable = load_identity(&home, KeyFile::Unreadable, None).err();
    assert_eq!(unreadable, Some(IdentityError::Unreadable));
    let short = load_identity(&home, KeyFile::Contents(vec![1u8; 31]), None).err();
    assert_eq!(short, Some(IdentityError::WrongSize(31)));
    let homeless = env(None, None, false, None);
    let nowhere = load_identity(&homeless, KeyFile::Missing, None).err();
    assert_eq!(nowhere, Some(IdentityError::NoHome));
    assert_eq!(IdentityError::NoHome.message(), "cannot determine home directory");
    assert_eq!(IdentityError::Missing.message(), "Identity file does not exist");
    assert_eq!(IdentityError::Unreadable.message(), "failed to read identity file");
    assert_eq!(
        IdentityError::WrongSize(31).message(),
        "identity file has unexpected size 31 (expected 32 bytes)"
    );
}

#[test]
fn loading_without_a_name_file() {
    let home = env(Some("/data"), None, false, None);
    let id = load_identity(&home, KeyFile::Contents(seed().to_vec()), None).expect("loads");
    assert_eq!(id.friendly_name, "Unknown");
    assert_eq!(id.tan_id, "d75a980182b10ab7");
}

#[test]
fn saved_identity_loads_back() {
    let home = env(Some("/data"), None, false, None);
    let id = NodeIdentity::generate(Some("Carol".to_string()));
    let plan = save_identity(&home, &id).expect("there is a directory");
    assert_eq!(parts(&plan.directory), ("/data".to_string(), strings(&[])));
    assert_eq!(parts(&plan.key_file), ("/data".to_string(), strings(&["identity.key"])));
    assert_eq!(parts(&plan.name_file), ("/data".to_string(), strings(&["identity.name"])));
    let contents = KeyFile::Contents(plan.key_bytes.to_vec());
    let again = load_identity(&home, contents, Some(plan.name.clone())).expect("loads");
    assert_eq!(again.tan_id, id.tan_id);
    assert_eq!(again.friendly_name, "Carol");
    assert_eq!(again.secret_key_bytes(), id.secret_key_bytes());
}

#[test]
fn identity_is_created_once() {
    let home = env(Some("/data"), None, false, None);
    let (made, plan) =
        load_or_create_identity(&home, false, KeyFile::Missing, None).expect("creates");
    let plan = plan.expect("a new identity is to be saved");
    assert_eq!(plan.key_bytes, made.secret_key_bytes());
    assert_eq!(plan.name, made.friendly_name);
    let (loaded, nothing) = load_or_create_identity(
        &home,
        true,
        KeyFile::Contents(plan.key_bytes.to_vec()),
        Some(plan.name.clone()),
    )
    .expect("loads");
    assert!(nothing.is_none());
    assert_eq!(loaded.tan_id, made.tan_id);
    let homeless = env(None, None, false, None);
    let nowhere = load_or_create_identity(&homeless, false, KeyFile::Missing, None).err();
    assert_eq!(nowhere, Some(IdentityError::NoHome));
    let broken = load_or_create_identity(&home, true, KeyFile::Unreadable, None).err();
    assert_eq!(broken, Some(IdentityError::Unreadable));
}
