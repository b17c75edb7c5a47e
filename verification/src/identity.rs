//! Identity of a node: an Ed25519 key pair, the short id derived from it, a display
//! name, and where these are kept.
//!
//! On first start a key pair is generated and saved; later starts load it. The short id
//! is the hexadecimal text of the first eight bytes of the public key.
use crate::crypto::{ed25519_key_decodes, ed25519_public_key, SigningKey, VerifyingKey};
use crate::hex_text;
use crate::hex_text::hex_encoded;
use crate::text;
use crate::text::{contains_text, decimal_digits};
use vstd::prelude::*;
use vstd::string::*;

verus! {

/// Number of leading public key bytes that make the short id.
pub const TAN_ID_BYTES: usize = 8;

/// The short id of the node with the given public key.
pub open spec fn tan_id_of(public_key: Seq<u8>) -> Seq<char> {
    hex_encoded(public_key.take(TAN_ID_BYTES as int))
}

/// The name of a node that was given none.
pub open spec fn default_name(tan_id: Seq<char>) -> Seq<char> {
    "tan-"@ + tan_id.take(4)
}

/// What an identity stands for.
#[verifier::ext_equal]
pub struct IdentityView {
    pub seed: Seq<u8>,
    pub public_key: Seq<u8>,
    pub tan_id: Seq<char>,
    pub friendly_name: Seq<char>,
}

/// The identity with the given seed and name.
pub open spec fn identity_of(seed: Seq<u8>, friendly_name: Seq<char>) -> IdentityView {
    IdentityView {
        seed,
        public_key: ed25519_public_key(seed),
        tan_id: tan_id_of(ed25519_public_key(seed)),
        friendly_name,
    }
}

/// An Ed25519 key pair together with the derived short id and a display name.
pub struct NodeIdentity {
    pub signing_key: SigningKey,
    pub verifying_key: VerifyingKey,
    pub tan_id: String,
    pub friendly_name: String,
}

impl View for NodeIdentity {
    type V = IdentityView;

    open spec fn view(&self) -> IdentityView {
        IdentityView {
            seed: self.signing_key@,
            public_key: self.verifying_key@,
            tan_id: self.tan_id@,
            friendly_name: self.friendly_name@,
        }
    }
}

impl NodeIdentity {
    /// The public key and the short id are those of the signing key.
    pub open spec fn well_formed(&self) -> bool {
        &&& self@ == identity_of(self@.seed, self@.friendly_name)
        &&& ed25519_key_decodes(self@.public_key)
        &&& self@.seed.len() == 32
        &&& self@.public_key.len() == 32
    }

    fn with_key(signing_key: SigningKey, friendly_name: Option<String>) -> (identity: Self)
        requires
            signing_key@.len() == 32,
        ensures
            identity.well_formed(),
            identity@ == identity_of(
                signing_key@,
                match friendly_name {
                    Some(name) => name@,
                    None => default_name(tan_id_of(ed25519_public_key(signing_key@))),
                },
            ),
    {
        let verifying_key = signing_key.verifying_key();
        let tan_id = derive_tan_id(&verifying_key);
        let friendly_name = match friendly_name {
            Some(name) => name,
            None => {
                let mut name = "tan-".to_owned();
                name.append(tan_id.as_str().substring_char(0, 4));
                assert(name@ =~= default_name(tan_id@));
                name
            },
        };
        NodeIdentity { signing_key, verifying_key, tan_id, friendly_name }
    }

    /// Create a new random identity. Without a name it is called after its short id.
    pub fn generate(friendly_name: Option<String>) -> (identity: Self)
        ensures
            identity.well_formed(),
            identity@.friendly_name == (match friendly_name {
                Some(name) => name@,
                None => default_name(identity@.tan_id),
            }),
    {
        Self::with_key(SigningKey::generate(), friendly_name)
    }

    /// The identity with the given 32-byte secret key.
    pub fn from_secret_bytes(bytes: &[u8; 32], friendly_name: String) -> (identity: Self)
        ensures
            identity.well_formed(),
            identity@ == identity_of(bytes@, friendly_name@),
    {
        Self::with_key(SigningKey::from_bytes(bytes), Some(friendly_name))
    }

    /// The 32-byte public key.
    pub fn public_key_bytes(&self) -> (bytes: [u8; 32])
        ensures
            bytes@ == self@.public_key,
    {
        self.verifying_key.to_bytes()
    }

    /// The 32-byte secret key.
    pub fn secret_key_bytes(&self) -> (bytes: [u8; 32])
        ensures
            bytes@ == self@.seed,
    {
        self.signing_key.to_bytes()
    }
}

/// Derive the short id: the hexadecimal text of the first eight bytes of the public key.
pub fn derive_tan_id(verifying_key: &VerifyingKey) -> (tan_id: String)
    ensures
        tan_id@ == tan_id_of(verifying_key@),
        tan_id@.len() == 16,
{
    let bytes = verifying_key.to_bytes();
    let first: [u8; 8] = [
        bytes[0],
        bytes[1],
        bytes[2],
        bytes[3],
        bytes[4],
        bytes[5],
        bytes[6],
        bytes[7],
    ];
    assert(first@ =~= verifying_key@.take(TAN_ID_BYTES as int));
    hex_text::encode(&first)
}

// Where an identity is kept.

/// A path: a root as the system gave it, and the names joined beneath it.
pub struct StoragePath {
    pub root: String,
    pub parts: Vec<String>,
}

/// What a path stands for.
#[verifier::ext_equal]
pub struct PathView {
    pub root: Seq<char>,
    pub parts: Seq<Seq<char>>,
}

impl View for StoragePath {
    type V = PathView;

    open spec fn view(&self) -> PathView {
        PathView { root: self.root@, parts: text::texts(self.parts@) }
    }
}

impl PathView {
    /// The path one name further down.
    pub open spec fn join(self, name: Seq<char>) -> PathView {
        PathView { root: self.root, parts: self.parts.push(name) }
    }
}

impl StoragePath {
    /// The path that is the root alone.
    pub fn at(root: &str) -> (path: Self)
        ensures
            path@ == (PathView { root: root@, parts: Seq::empty() }),
    {
        let path = StoragePath { root: root.to_owned(), parts: Vec::new() };
        assert(path@.parts =~= Seq::empty());
        path
    }

    /// The path one name further down.
    pub fn join(&self, name: &str) -> (path: Self)
        ensures
            path@ == self@.join(name@),
    {
        let mut parts: Vec<String> = Vec::new();
        let mut i: usize = 0;
        assert(text::texts(parts@) =~= text::texts(self.parts@).take(0));
        while i < self.parts.len()
            invariant
                i <= self.parts@.len(),
                text::texts(parts@) == text::texts(self.parts@).take(i as int),
            decreases self.parts@.len() - i,
        {
            let ghost before = parts@;
            parts.push(self.parts[i].clone());
            assert(text::texts(parts@) =~= text::texts(before).push(self.parts@[i as int]@));
            assert(text::texts(parts@) =~= text::texts(self.parts@).take(i + 1));
            i = i + 1;
        }
        assert(text::texts(self.parts@).take(i as int) =~= text::texts(self.parts@));
        let ghost before = parts@;
        parts.push(name.to_owned());
        assert(text::texts(parts@) =~= text::texts(before).push(name@));
        StoragePath { root: self.root.clone(), parts }
    }
}

/// What the surroundings say about home directories.
pub struct HomeEnv {
    /// The `TANOS_DIR` variable.
    pub tanos_dir: Option<String>,
    /// The `HOME` variable.
    pub home: Option<String>,
    /// Whether `.termux` exists under `HOME`.
    pub termux_marker: bool,
    /// The home directory of the user, as the system knows it.
    pub base_home: Option<String>,
}

/// Why an identity could not be found or loaded.
#[derive(Debug, Clone, Copy, PartialEq, Eq, Structural)]
pub enum IdentityError {
    /// There is no home directory.
    NoHome,
    /// There is no identity file.
    Missing,
    /// The identity file could not be read.
    Unreadable,
    /// The identity file holds this many bytes, and not 32.
    WrongSize(usize),
}

impl IdentityError {
    /// The text under which the error is reported.
    pub open spec fn spec_message(self) -> Seq<char> {
        match self {
            IdentityError::NoHome => "cannot determine home directory"@,
            IdentityError::Missing => "Identity file does not exist"@,
            IdentityError::Unreadable => "failed to read identity file"@,
            IdentityError::WrongSize(n) => "identity file has unexpected size "@ + decimal_digits(
                n as nat,
            ) + " (expected 32 bytes)"@,
        }
    }

    /// The text under which the error is reported.
    pub fn message(&self) -> (message: String)
        ensures
            message@ == self.spec_message(),
    {
        match self {
            IdentityError::NoHome => "cannot determine home directory".to_owned(),
            IdentityError::Missing => "Identity file does not exist".to_owned(),
            IdentityError::Unreadable => "failed to read identity file".to_owned(),
            IdentityError::WrongSize(n) => {
                let mut message = "identity file has unexpected size ".to_owned();
                message.append(text::decimal(*n as u64).as_str());
                message.append(" (expected 32 bytes)");
                message
            },
        }
    }
}

impl HomeEnv {
    /// A home directory of the Termux app.
    pub open spec fn is_termux(&self) -> bool {
        self.home matches Some(home) && (self.termux_marker || contains_text(
            home@,
            "com.termux"@,
        ))
    }

    /// The directory for identity data: the one that `TANOS_DIR` names, else `.tanos`
    /// under a Termux home, else `.tanos` under the user's home.
    pub open spec fn dir(&self) -> Option<PathView> {
        if self.tanos_dir is Some {
            Some(PathView { root: self.tanos_dir->0@, parts: Seq::empty() })
        } else if self.is_termux() {
            Some(PathView { root: self.home->0@, parts: seq![".tanos"@] })
        } else if self.base_home is Some {
            Some(PathView { root: self.base_home->0@, parts: seq![".tanos"@] })
        } else {
            None
        }
    }
}

/// The directory for identity data.
pub fn identity_dir(env: &HomeEnv) -> (dir: Result<StoragePath, IdentityError>)
    ensures
        match dir {
            Ok(path) => env.dir() == Some(path@),
            Err(e) => env.dir() is None && e == IdentityError::NoHome,
        },
{
    if let Some(dir) = &env.tanos_dir {
        return Ok(StoragePath::at(dir.as_str()));
    }
    if let Some(home) = &env.home {
        if env.termux_marker || text::contains(home.as_str(), "com.termux") {
            let path = StoragePath::at(home.as_str()).join(".tanos");
            assert(path@.parts =~= seq![".tanos"@]);
            return Ok(path);
        }
    }
    match &env.base_home {
        Some(home) => {
            let path = StoragePath::at(home.as_str()).join(".tanos");
            assert(path@.parts =~= seq![".tanos"@]);
            Ok(path)
        },
        None => Err(IdentityError::NoHome),
    }
}

/// The identity key file.
pub fn identity_file(env: &HomeEnv) -> (file: Result<StoragePath, IdentityError>)
    ensures
        match file {
            Ok(path) => env.dir() matches Some(dir) && path@ == dir.join("identity.key"@),
            Err(e) => env.dir() is None && e == IdentityError::NoHome,
        },
{
    match identity_dir(env) {
        Ok(dir) => Ok(dir.join("identity.key")),
        Err(e) => Err(e),
    }
}

/// The file for the display name, beside the key file.
pub fn name_file(env: &HomeEnv) -> (file: Result<StoragePath, IdentityError>)
    ensures
        match file {
            Ok(path) => env.dir() matches Some(dir) && path@ == dir.join("identity.name"@),
            Err(e) => env.dir() is None && e == IdentityError::NoHome,
        },
{
    match identity_dir(env) {
        Ok(dir) => Ok(dir.join("identity.name")),
        Err(e) => Err(e),
    }
}

/// Whether an identity is saved, given whether the key file is present.
pub fn identity_exists(env: &HomeEnv, key_file_present: bool) -> (exists: Result<
    bool,
    IdentityError,
>)
    ensures
        exists == (if env.dir() is Some {
            Ok(key_file_present)
        } else {
            Err(IdentityError::NoHome)
        }),
{
    match identity_file(env) {
        Ok(_) => Ok(key_file_present),
        Err(e) => Err(e),
    }
}

/// What came of reading the key file.
pub enum KeyFile {
    Missing,
    Unreadable,
    Contents(Vec<u8>),
}

/// The name to load: that of the name file, or a stand-in where it could not be read.
pub open spec fn loaded_name(name: Option<String>) -> Seq<char> {
    match name {
        Some(name) => name@,
        None => "Unknown"@,
    }
}

/// The identity that the files hold, or why they hold none.
pub open spec fn loaded(env: &HomeEnv, key_file: KeyFile, name: Option<String>) -> Result<
    IdentityView,
    IdentityError,
> {
    if env.dir() is None {
        Err(IdentityError::NoHome)
    } else {
        match key_file {
            KeyFile::Missing => Err(IdentityError::Missing),
            KeyFile::Unreadable => Err(IdentityError::Unreadable),
            KeyFile::Contents(raw) => if raw@.len() == 32 {
                Ok(identity_of(raw@, loaded_name(name)))
            } else {
                Err(IdentityError::WrongSize(raw@.len() as usize))
            },
        }
    }
}

fn array_32(raw: &Vec<u8>) -> (bytes: [u8; 32])
    requires
        raw@.len() == 32,
    ensures
        bytes@ == raw@,
{
    let mut bytes = [0u8;32];
    let mut i: usize = 0;
    while i < 32
        invariant
            i <= 32,
            raw@.len() == 32,
            bytes@.take(i as int) == raw@.take(i as int),
        decreases 32 - i,
    {
        bytes[i] = raw[i];
        i = i + 1;
        assert(bytes@.take(i as int) =~= raw@.take(i as int));
    }
    assert(bytes@ =~= bytes@.take(32));
    assert(raw@ =~= raw@.take(32));
    bytes
}

/// Load the identity, given what the two files hold.
pub fn load_identity(env: &HomeEnv, key_file: KeyFile, name: Option<String>) -> (identity: Result<
    NodeIdentity,
    IdentityError,
>)
    ensures
        match (identity, loaded(env, key_file, name)) {
            (Ok(id), Ok(view)) => id@ == view && id.well_formed(),
            (Err(e), Err(f)) => e == f,
            _ => false,
        },
{
    match identity_dir(env) {
        Ok(_) => {},
        Err(e) => {
            return Err(e);
        },
    }
    let raw = match key_file {
        KeyFile::Missing => {
            return Err(IdentityError::Missing);
        },
        KeyFile::Unreadable => {
            return Err(IdentityError::Unreadable);
        },
        KeyFile::Contents(raw) => raw,
    };
    if raw.len() != 32 {
        return Err(IdentityError::WrongSize(raw.len()));
    }
    let name = match name {
        Some(name) => name,
        None => "Unknown".to_owned(),
    };
    Ok(NodeIdentity::from_secret_bytes(&array_32(&raw), name))
}

/// What has to be written to keep an identity.
pub struct SavePlan {
    /// The directory to create first.
    pub directory: StoragePath,
    pub key_file: StoragePath,
    pub key_bytes: [u8; 32],
    pub name_file: StoragePath,
    pub name: String,
}

impl SavePlan {
    /// The plan keeps this identity in this directory.
    pub open spec fn keeps(&self, dir: PathView, identity: IdentityView) -> bool {
        &&& self.directory@ == dir
        &&& self.key_file@ == dir.join("identity.key"@)
        &&& self.key_bytes@ == identity.seed
        &&& self.name_file@ == dir.join("identity.name"@)
        &&& self.name@ == identity.friendly_name
    }
}

/// What to write, and where, to save an identity.
pub fn save_identity(env: &HomeEnv, identity: &NodeIdentity) -> (plan: Result<
    SavePlan,
    IdentityError,
>)
    ensures
        match plan {
            Ok(plan) => env.dir() matches Some(dir) && plan.keeps(dir, identity@),
            Err(e) => env.dir() is None && e == IdentityError::NoHome,
        },
{
    let directory = match identity_dir(env) {
        Ok(dir) => dir,
        Err(e) => {
            return Err(e);
        },
    };
    let key_file = directory.join("identity.key");
    let name_file = directory.join("identity.name");
    Ok(
        SavePlan {
            directory,
            key_file,
            key_bytes: identity.secret_key_bytes(),
            name_file,
            name: identity.friendly_name.clone(),
        },
    )
}

/// Load the saved identity, or create one and say how to save it.
pub fn load_or_create_identity(
    env: &HomeEnv,
    key_file_present: bool,
    key_file: KeyFile,
    name: Option<String>,
) -> (identity: Result<(NodeIdentity, Option<SavePlan>), IdentityError>)
    ensures
        env.dir() is None ==> identity == Err::<
            (NodeIdentity, Option<SavePlan>),
            IdentityError,
        >(IdentityError::NoHome),
        env.dir() is Some && key_file_present ==> match (identity, loaded(env, key_file, name)) {
            (Ok((id, plan)), Ok(view)) => id@ == view && id.well_formed() && plan is None,
            (Err(e), Err(f)) => e == f,
            _ => false,
        },
        env.dir() is Some && !key_file_present ==> (identity matches Ok((id, Some(plan))) && {
            &&& id.well_formed()
            &&& id@.friendly_name == default_name(id@.tan_id)
            &&& plan.keeps(env.dir()->0, id@)
        }),
{
    match identity_exists(env, key_file_present) {
        Err(e) => Err(e),
        Ok(true) => match load_identity(env, key_file, name) {
            Ok(identity) => Ok((identity, None)),
            Err(e) => Err(e),
        },
        Ok(false) => {
            let identity = NodeIdentity::generate(None);
            match save_identity(env, &identity) {
                Ok(plan) => Ok((identity, Some(plan))),
                Err(e) => Err(e),
            }
        },
    }
}

/// An identity that was saved and is loaded again is the same identity.
pub proof fn law_saved_identity_loads_back(
    env: &HomeEnv,
    identity: NodeIdentity,
    plan: SavePlan,
    raw: Vec<u8>,
    name: String,
)
    requires
        identity.well_formed(),
        env.dir() is Some,
        plan.keeps(env.dir()->0, identity@),
        raw@ == plan.key_bytes@,
        name@ == plan.name@,
    ensures
        loaded(env, KeyFile::Contents(raw), Some(name)) == Ok::<IdentityView, IdentityError>(
            identity@,
        ),
{
}

/// Identities with the same secret key have the same public key and the same short id.
pub proof fn law_secret_key_fixes_the_id(a: NodeIdentity, b: NodeIdentity)
    requires
        a.well_formed(),
        b.well_formed(),
        a@.seed == b@.seed,
    ensures
        a@.public_key == b@.public_key,
        a@.tan_id == b@.tan_id,
{
}

/// What an identity is: the public key of its seed, the hexadecimal text of the first eight
/// bytes of that key as its id, and a name, which is made of the first four characters of the
/// id where none was given.
pub proof fn law_what_an_identity_is(identity: NodeIdentity, seed: Seq<u8>, name: Seq<char>)
    ensures
        ({
            let view = identity_of(seed, name);
            let key = ed25519_public_key(seed);
            &&& view.seed == seed
            &&& view.public_key == key
            &&& view.tan_id == hex_encoded(key.take(8))
            &&& view.friendly_name == name
            &&& default_name(name) == "tan-"@ + name.take(4)
            &&& identity@.seed == identity.signing_key@
            &&& identity@.public_key == identity.verifying_key@
            &&& identity@.tan_id == identity.tan_id@
            &&& identity@.friendly_name == identity.friendly_name@
            &&& identity.well_formed() ==> {
                &&& identity@.public_key == ed25519_public_key(identity@.seed)
                &&& identity@.tan_id == hex_encoded(identity@.public_key.take(8))
                &&& identity@.seed.len() == 32
                &&& identity@.public_key.len() == 32
            }
        }),
{
}

/// Where a node keeps its data: in the directory that `TANOS_DIR` names; else in `.tanos`
/// under `HOME`, if that holds the mark of Termux or its path names Termux; else in `.tanos`
/// under the user's home; else nowhere.
pub proof fn law_where_data_is_kept(env: HomeEnv)
    ensures
        ({
            let termux = env.home is Some && (env.termux_marker || contains_text(
                env.home->0@,
                "com.termux"@,
            ));
            &&& env.tanos_dir is Some ==> env.dir() is Some && env.dir()->0.root
                == env.tanos_dir->0@ && env.dir()->0.parts.len() == 0
            &&& env.tanos_dir is None && termux ==> env.dir() is Some && env.dir()->0.root
                == env.home->0@ && env.dir()->0.parts == seq![".tanos"@]
            &&& env.tanos_dir is None && !termux && env.base_home is Some ==> env.dir() is Some
                && env.dir()->0.root == env.base_home->0@ && env.dir()->0.parts
                == seq![".tanos"@]
            &&& env.dir() is None <==> env.tanos_dir is None && !termux && env.base_home is None
        }),
{
}

/// What the files of an identity give: with a directory and a key file of 32 bytes the
/// identity with these bytes as its seed, under the name in the name file, or `Unknown`
/// without one; otherwise the first thing that is wrong.
pub proof fn law_what_is_loaded(env: HomeEnv, raw: Vec<u8>, name: Option<String>)
    ensures
        env.dir() is None ==> loaded(&env, KeyFile::Contents(raw), name) == Err::<
            IdentityView,
            IdentityError,
        >(IdentityError::NoHome),
        env.dir() is Some ==> {
            let got = loaded(&env, KeyFile::Contents(raw), name);
            &&& loaded(&env, KeyFile::Missing, name) == Err::<IdentityView, IdentityError>(
                IdentityError::Missing,
            )
            &&& loaded(&env, KeyFile::Unreadable, name) == Err::<IdentityView, IdentityError>(
                IdentityError::Unreadable,
            )
            &&& got is Ok <==> raw@.len() == 32
            &&& got is Ok ==> {
                &&& got->Ok_0.seed == raw@
                &&& got->Ok_0.public_key == ed25519_public_key(raw@)
                &&& got->Ok_0.tan_id == hex_encoded(ed25519_public_key(raw@).take(8))
                &&& got->Ok_0.friendly_name == (match name {
                    Some(name) => name@,
                    None => "Unknown"@,
                })
            }
            &&& got is Err ==> got->Err_0 == IdentityError::WrongSize(raw@.len() as usize)
        },
{
}

/// What is written to keep an identity: its seed in `identity.key` and its name in
/// `identity.name`, both in the directory for its data.
pub proof fn law_what_is_saved(plan: SavePlan, dir: PathView, identity: IdentityView)
    ensures
        plan.keeps(dir, identity) <==> {
            &&& plan.directory@ == dir
            &&& plan.key_file@ == (PathView {
                root: dir.root,
                parts: dir.parts.push("identity.key"@),
            })
            &&& plan.key_bytes@ == identity.seed
            &&& plan.name_file@ == (PathView {
                root: dir.root,
                parts: dir.parts.push("identity.name"@),
            })
            &&& plan.name@ == identity.friendly_name
        },
        plan.directory@.root == plan.directory.root@,
        plan.directory@.parts == text::texts(plan.directory.parts@),
{
}

/// The texts of the errors.
pub proof fn law_error_texts(n: usize)
    ensures
        IdentityError::NoHome.spec_message() == "cannot determine home directory"@,
        IdentityError::Missing.spec_message() == "Identity file does not exist"@,
        IdentityError::Unreadable.spec_message() == "failed to read identity file"@,
        IdentityError::WrongSize(n).spec_message() == "identity file has unexpected size "@
            + decimal_digits(n as nat) + " (expected 32 bytes)"@,
{
}

} // verus!
