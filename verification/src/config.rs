//! The settings of the program: what the interface works with, what stands on disk, and the way
//! from each to the other.
use crate::outside;
use crate::text;
use vstd::prelude::*;
use vstd::string::*;
use vstd::utf8::*;

verus! {

/// The name of the file that the settings are stored in.
pub const CONFIG_FILE: &'static str = "config.json";

/// The number of files that one transfer moves at a time, unless the user says otherwise.
pub fn d_jobs() -> (n: u32)
    ensures
        n == 5,
{
    5
}

/// The number of parts of one file that move at a time, unless the user says otherwise.
pub fn d_parallel() -> (n: u32)
    ensures
        n == 8,
{
    8
}

/// The size of a part in megabytes, unless the user says otherwise.
pub fn d_part() -> (n: u64)
    ensures
        n == 16,
{
    16
}

/// The number of transfers that run at a time, unless the user says otherwise.
pub fn d_max_tasks() -> (n: u32)
    ensures
        n == 3,
{
    3
}

/// A saved account.
#[derive(Debug, Clone)]
pub struct Account {
    /// The name that the user gave it.
    pub name: String,
    pub access_key_id: String,
    pub access_key_secret: String,
    pub endpoint: String,
}

/// What an [`Account`] says.
#[verifier::ext_equal]
pub struct AccountView {
    pub name: Seq<char>,
    pub access_key_id: Seq<char>,
    pub access_key_secret: Seq<char>,
    pub endpoint: Seq<char>,
}

impl View for Account {
    type V = AccountView;

    open spec fn view(&self) -> AccountView {
        AccountView {
            name: self.name@,
            access_key_id: self.access_key_id@,
            access_key_secret: self.access_key_secret@,
            endpoint: self.endpoint@,
        }
    }
}

/// A saved account as it stands on disk: the secret is in base64, which hides it from a glance and
/// from nothing else.
#[derive(Debug, Clone)]
pub struct StoredAccount {
    pub name: String,
    pub access_key_id: String,
    pub access_key_secret_enc: String,
    pub endpoint: String,
}

/// What a [`StoredAccount`] says.
#[verifier::ext_equal]
pub struct StoredAccountView {
    pub name: Seq<char>,
    pub access_key_id: Seq<char>,
    pub access_key_secret_enc: Seq<char>,
    pub endpoint: Seq<char>,
}

impl View for StoredAccount {
    type V = StoredAccountView;

    open spec fn view(&self) -> StoredAccountView {
        StoredAccountView {
            name: self.name@,
            access_key_id: self.access_key_id@,
            access_key_secret_enc: self.access_key_secret_enc@,
            endpoint: self.endpoint@,
        }
    }
}

impl Default for StoredAccount {
    fn default() -> (res: Self)
        ensures
            res@ == (StoredAccountView {
                name: seq![],
                access_key_id: seq![],
                access_key_secret_enc: seq![],
                endpoint: seq![],
            }),
    {
        StoredAccount {
            name: String::new(),
            access_key_id: String::new(),
            access_key_secret_enc: String::new(),
            endpoint: String::new(),
        }
    }
}

/// The settings that the interface works with.
#[derive(Debug, Clone)]
pub struct ClientConfig {
    pub access_key_id: String,
    pub access_key_secret: String,
    pub endpoint: String,
    pub bucket: String,
    pub prefix: String,
    pub remember: bool,
    pub jobs: u32,
    pub parallel: u32,
    pub part_size_mb: u64,
    pub ossutil_path: String,
    pub cli_creds: bool,
    /// How many transfers may run at a time. Each is a process of its own.
    pub max_tasks: u32,
    /// The saved accounts, for switching between them.
    pub accounts: Vec<Account>,
    /// The buckets that the interface offers.
    pub buckets: Vec<String>,
}

/// What a [`ClientConfig`] says.
#[verifier::ext_equal]
pub struct ConfigView {
    pub access_key_id: Seq<char>,
    pub access_key_secret: Seq<char>,
    pub endpoint: Seq<char>,
    pub bucket: Seq<char>,
    pub prefix: Seq<char>,
    pub remember: bool,
    pub jobs: u32,
    pub parallel: u32,
    pub part_size_mb: u64,
    pub ossutil_path: Seq<char>,
    pub cli_creds: bool,
    pub max_tasks: u32,
    pub accounts: Seq<AccountView>,
    pub buckets: Seq<Seq<char>>,
}

impl View for ClientConfig {
    type V = ConfigView;

    open spec fn view(&self) -> ConfigView {
        ConfigView {
            access_key_id: self.access_key_id@,
            access_key_secret: self.access_key_secret@,
            endpoint: self.endpoint@,
            bucket: self.bucket@,
            prefix: self.prefix@,
            remember: self.remember,
            jobs: self.jobs,
            parallel: self.parallel,
            part_size_mb: self.part_size_mb,
            ossutil_path: self.ossutil_path@,
            cli_creds: self.cli_creds,
            max_tasks: self.max_tasks,
            accounts: self.accounts@.map_values(|a: Account| a@),
            buckets: text::texts(self.buckets@),
        }
    }
}

/// The settings of a program that nothing was saved for.
pub open spec fn default_config() -> ConfigView {
    ConfigView {
        access_key_id: seq![],
        access_key_secret: seq![],
        endpoint: seq![],
        bucket: seq![],
        prefix: seq![],
        remember: false,
        jobs: 5,
        parallel: 8,
        part_size_mb: 16,
        ossutil_path: seq![],
        cli_creds: false,
        max_tasks: 3,
        accounts: seq![],
        buckets: seq![],
    }
}

impl Default for ClientConfig {
    /// The endpoint is left empty: a wrong region would send the data to the wrong place.
    fn default() -> (res: Self)
        ensures
            res@ == default_config(),
    {
        let res = ClientConfig {
            access_key_id: String::new(),
            access_key_secret: String::new(),
            endpoint: String::new(),
            bucket: String::new(),
            prefix: String::new(),
            remember: false,
            jobs: d_jobs(),
            parallel: d_parallel(),
            part_size_mb: d_part(),
            ossutil_path: String::new(),
            cli_creds: false,
            max_tasks: d_max_tasks(),
            accounts: Vec::new(),
            buckets: Vec::new(),
        };
        assert(res@ =~= default_config());
        res
    }
}

/// The settings as they stand on disk.
#[derive(Debug, Clone)]
pub struct StoredConfig {
    pub access_key_id: String,
    pub access_key_secret_enc: String,
    pub endpoint: String,
    pub bucket: String,
    pub prefix: String,
    pub remember: bool,
    pub jobs: u32,
    pub parallel: u32,
    pub part_size_mb: u64,
    pub ossutil_path: String,
    pub cli_creds: bool,
    pub max_tasks: u32,
    pub accounts: Vec<StoredAccount>,
    pub buckets: Vec<String>,
}

/// What a [`StoredConfig`] says.
#[verifier::ext_equal]
pub struct StoredConfigView {
    pub access_key_id: Seq<char>,
    pub access_key_secret_enc: Seq<char>,
    pub endpoint: Seq<char>,
    pub bucket: Seq<char>,
    pub prefix: Seq<char>,
    pub remember: bool,
    pub jobs: u32,
    pub parallel: u32,
    pub part_size_mb: u64,
    pub ossutil_path: Seq<char>,
    pub cli_creds: bool,
    pub max_tasks: u32,
    pub accounts: Seq<StoredAccountView>,
    pub buckets: Seq<Seq<char>>,
}

impl View for StoredConfig {
    type V = StoredConfigView;

    open spec fn view(&self) -> StoredConfigView {
        StoredConfigView {
            access_key_id: self.access_key_id@,
            access_key_secret_enc: self.access_key_secret_enc@,
            endpoint: self.endpoint@,
            bucket: self.bucket@,
            prefix: self.prefix@,
            remember: self.remember,
            jobs: self.jobs,
            parallel: self.parallel,
            part_size_mb: self.part_size_mb,
            ossutil_path: self.ossutil_path@,
            cli_creds: self.cli_creds,
            max_tasks: self.max_tasks,
            accounts: self.accounts@.map_values(|a: StoredAccount| a@),
            buckets: text::texts(self.buckets@),
        }
    }
}

/// What stands for a file that holds no settings, or none that can be read: nothing set anywhere.
pub open spec fn blank_stored() -> StoredConfigView {
    StoredConfigView {
        access_key_id: seq![],
        access_key_secret_enc: seq![],
        endpoint: seq![],
        bucket: seq![],
        prefix: seq![],
        remember: false,
        jobs: 0,
        parallel: 0,
        part_size_mb: 0,
        ossutil_path: seq![],
        cli_creds: false,
        max_tasks: 0,
        accounts: seq![],
        buckets: seq![],
    }
}

impl Default for StoredConfig {
    fn default() -> (res: Self)
        ensures
            res@ == blank_stored(),
    {
        let res = StoredConfig {
            access_key_id: String::new(),
            access_key_secret_enc: String::new(),
            endpoint: String::new(),
            bucket: String::new(),
            prefix: String::new(),
            remember: false,
            jobs: 0,
            parallel: 0,
            part_size_mb: 0,
            ossutil_path: String::new(),
            cli_creds: false,
            max_tasks: 0,
            accounts: Vec::new(),
            buckets: Vec::new(),
        };
        assert(res@ =~= blank_stored());
        res
    }
}

/// The text that base64 decoding gives, once its outcome is known: the text that the bytes encode,
/// and nothing when there are none or they are not UTF-8.
pub open spec fn secret_of_bytes(bytes: Option<Seq<u8>>) -> Seq<char> {
    match bytes {
        Some(b) => if valid_utf8(b) {
            decode_utf8(b)
        } else {
            seq![]
        },
        None => seq![],
    }
}

/// The secret that `enc` hides.
pub open spec fn decoded_secret(enc: Seq<char>) -> Seq<char> {
    secret_of_bytes(outside::base64_decoded(encode_utf8(enc)))
}

/// The secret that decoded bytes spell; empty when there are none or they are not UTF-8.
pub fn secret_text(bytes: Option<Vec<u8>>) -> (secret: String)
    ensures
        bytes is None ==> secret@ == secret_of_bytes(None),
        bytes matches Some(b) ==> secret@ == secret_of_bytes(Some(b@)),
{
    match bytes {
        Some(b) => match outside::utf8_text(b) {
            Some(text) => text,
            None => String::new(),
        },
        None => String::new(),
    }
}

/// The secret that `enc` hides. What cannot be decoded is taken for an empty secret: settings that
/// someone edited by hand must not keep the program from starting.
pub fn decode_secret(enc: &str) -> (secret: String)
    ensures
        secret@ == decoded_secret(enc@),
        enc@.len() == 0 ==> secret@.len() == 0,
{
    let bytes = outside::base64_decode(enc.as_bytes());
    proof {
        if enc@.len() == 0 {
            assert(enc.spec_bytes().len() == 0);
            assert(bytes->0@ =~= seq![]);
        }
    }
    secret_text(bytes)
}

/// Whether the base64 of the secret fits a string.
pub open spec fn secret_fits(secret: Seq<char>) -> bool {
    outside::base64_fits(encode_utf8(secret).len())
}

/// Hides `secret` in base64.
pub fn encode_secret(secret: &str) -> (enc: String)
    requires
        secret_fits(secret@),
    ensures
        enc@ == outside::base64_encoded(encode_utf8(secret@)),
        decoded_secret(enc@) == secret@,
        secret@.len() == 0 <==> enc@.len() == 0,
{
    let enc = outside::base64_encode(secret.as_bytes());
    proof {
        encode_utf8_valid_utf8(secret@);
        encode_utf8_decode_utf8(secret@);
        if secret@.len() > 0 {
            encode_utf8_first_scalar(secret@);
        }
    }
    enc
}

/// `value`, or `default` where nothing was set.
pub open spec fn or_default(value: int, default: int) -> int {
    if value == 0 {
        default
    } else {
        value
    }
}

/// The account that a stored one stands for.
pub open spec fn loaded_account(stored: StoredAccountView) -> AccountView {
    AccountView {
        name: stored.name,
        access_key_id: stored.access_key_id,
        access_key_secret: decoded_secret(stored.access_key_secret_enc),
        endpoint: stored.endpoint,
    }
}

/// The settings that stored ones stand for.
pub open spec fn loaded(stored: StoredConfigView) -> ConfigView {
    ConfigView {
        access_key_id: stored.access_key_id,
        access_key_secret: decoded_secret(stored.access_key_secret_enc),
        endpoint: stored.endpoint,
        bucket: stored.bucket,
        prefix: stored.prefix,
        remember: stored.remember,
        jobs: or_default(stored.jobs as int, 5) as u32,
        parallel: or_default(stored.parallel as int, 8) as u32,
        part_size_mb: or_default(stored.part_size_mb as int, 16) as u64,
        ossutil_path: stored.ossutil_path,
        cli_creds: stored.cli_creds,
        max_tasks: or_default(stored.max_tasks as int, 3) as u32,
        accounts: stored.accounts.map_values(|a: StoredAccountView| loaded_account(a)),
        buckets: stored.buckets,
    }
}

fn load_accounts(stored: &Vec<StoredAccount>) -> (accounts: Vec<Account>)
    ensures
        accounts@.map_values(|a: Account| a@) == stored@.map_values(
            |a: StoredAccount| a@,
        ).map_values(|a: StoredAccountView| loaded_account(a)),
{
    let mut accounts: Vec<Account> = Vec::new();
    let mut i: usize = 0;
    while i < stored.len()
        invariant
            i <= stored.len(),
            accounts.len() == i,
            forall|j: int| 0 <= j < i ==> #[trigger] accounts@[j]@ == loaded_account(stored@[j]@),
        decreases stored.len() - i,
    {
        let from = &stored[i];
        accounts.push(
            Account {
                name: from.name.clone(),
                access_key_id: from.access_key_id.clone(),
                access_key_secret: decode_secret(from.access_key_secret_enc.as_str()),
                endpoint: from.endpoint.clone(),
            },
        );
        i = i + 1;
    }
    proof {
        let a = accounts@.map_values(|a: Account| a@);
        let b = stored@.map_values(|a: StoredAccount| a@).map_values(
            |a: StoredAccountView| loaded_account(a),
        );
        assert forall|j: int| 0 <= j < a.len() implies a[j] == b[j] by {
            assert(accounts@[j]@ == loaded_account(stored@[j]@));
        }
        assert(a =~= b);
    }
    accounts
}

/// The settings to start with: the stored ones, or the defaults when none were ever stored. A count
/// or a size that was stored as zero stands for its default.
pub fn load_config(stored: Option<StoredConfig>) -> (res: ClientConfig)
    ensures
        stored is None ==> res@ == default_config(),
        stored matches Some(s) ==> res@ == loaded(s@),
        stored matches Some(s) ==> s@ == blank_stored() ==> res@ == default_config(),
{
    let stored = match stored {
        Some(stored) => stored,
        None => {
            return ClientConfig::default();
        },
    };
    let access_key_secret = decode_secret(stored.access_key_secret_enc.as_str());
    let accounts = load_accounts(&stored.accounts);
    let ghost given = stored@;
    let res = ClientConfig {
        access_key_id: stored.access_key_id,
        access_key_secret,
        endpoint: stored.endpoint,
        bucket: stored.bucket,
        prefix: stored.prefix,
        remember: stored.remember,
        jobs: if stored.jobs == 0 {
            d_jobs()
        } else {
            stored.jobs
        },
        parallel: if stored.parallel == 0 {
            d_parallel()
        } else {
            stored.parallel
        },
        part_size_mb: if stored.part_size_mb == 0 {
            d_part()
        } else {
            stored.part_size_mb
        },
        ossutil_path: stored.ossutil_path,
        cli_creds: stored.cli_creds,
        max_tasks: if stored.max_tasks == 0 {
            d_max_tasks()
        } else {
            stored.max_tasks
        },
        accounts,
        buckets: stored.buckets,
    };
    assert(res@ =~= loaded(given));
    proof {
        if given == blank_stored() {
            assert(res@.access_key_secret =~= seq![]);
            assert(res@ =~= default_config());
        }
    }
    res
}

/// The stored form of an account.
pub open spec fn saved_account(account: AccountView) -> StoredAccountView {
    StoredAccountView {
        name: account.name,
        access_key_id: account.access_key_id,
        access_key_secret_enc: outside::base64_encoded(encode_utf8(account.access_key_secret)),
        endpoint: account.endpoint,
    }
}

/// The stored form of the settings.
pub open spec fn saved(config: ConfigView) -> StoredConfigView {
    StoredConfigView {
        access_key_id: config.access_key_id,
        access_key_secret_enc: outside::base64_encoded(encode_utf8(config.access_key_secret)),
        endpoint: config.endpoint,
        bucket: config.bucket,
        prefix: config.prefix,
        remember: config.remember,
        jobs: config.jobs,
        parallel: config.parallel,
        part_size_mb: config.part_size_mb,
        ossutil_path: config.ossutil_path,
        cli_creds: config.cli_creds,
        max_tasks: config.max_tasks,
        accounts: config.accounts.map_values(|a: AccountView| saved_account(a)),
        buckets: config.buckets,
    }
}

/// The settings with each count and size that is zero replaced by its default.
pub open spec fn with_defaults(config: ConfigView) -> ConfigView {
    ConfigView {
        jobs: or_default(config.jobs as int, 5) as u32,
        parallel: or_default(config.parallel as int, 8) as u32,
        part_size_mb: or_default(config.part_size_mb as int, 16) as u64,
        max_tasks: or_default(config.max_tasks as int, 3) as u32,
        ..config
    }
}

/// Whether the base64 of every secret in the settings fits a string.
pub open spec fn secrets_fit(config: ConfigView) -> bool {
    &&& secret_fits(config.access_key_secret)
    &&& forall|i: int|
        0 <= i < config.accounts.len() ==> secret_fits(
            (#[trigger] config.accounts[i]).access_key_secret,
        )
}

impl ClientConfig {
    /// Tells whether the settings can be saved: whether the base64 of every secret fits a string.
    pub fn can_be_saved(&self) -> (res: bool)
        ensures
            res == secrets_fit(self@),
    {
        if !fits(self.access_key_secret.as_str()) {
            return false;
        }
        let mut i: usize = 0;
        while i < self.accounts.len()
            invariant
                i <= self.accounts.len(),
                forall|j: int|
                    0 <= j < i ==> secret_fits((#[trigger] self@.accounts[j]).access_key_secret),
            decreases self.accounts.len() - i,
        {
            assert(self@.accounts[i as int] == self.accounts@[i as int]@);
            if !fits(self.accounts[i].access_key_secret.as_str()) {
                return false;
            }
            i = i + 1;
        }
        true
    }
}

fn fits(secret: &str) -> (res: bool)
    ensures
        res == secret_fits(secret@),
{
    let len: usize = secret.as_bytes().len();
    let groups: usize = if len % 3 == 0 {
        len / 3
    } else {
        len / 3 + 1
    };
    groups <= isize::MAX as usize / 4
}

fn save_accounts(accounts: &Vec<Account>) -> (stored: Vec<StoredAccount>)
    requires
        forall|i: int|
            0 <= i < accounts.len() ==> secret_fits((#[trigger] accounts@[i])@.access_key_secret),
    ensures
        stored.len() == accounts.len(),
        forall|i: int|
            0 <= i < stored.len() ==> #[trigger] stored@[i]@ == saved_account(accounts@[i]@)
                && loaded_account(stored@[i]@) == accounts@[i]@,
{
    let mut stored: Vec<StoredAccount> = Vec::new();
    let mut i: usize = 0;
    while i < accounts.len()
        invariant
            i <= accounts.len(),
            stored.len() == i,
            forall|j: int|
                0 <= j < accounts.len() ==> secret_fits(
                    (#[trigger] accounts@[j])@.access_key_secret,
                ),
            forall|j: int|
                0 <= j < i ==> #[trigger] stored@[j]@ == saved_account(accounts@[j]@)
                    && loaded_account(stored@[j]@) == accounts@[j]@,
        decreases accounts.len() - i,
    {
        let from = &accounts[i];
        assert(secret_fits(accounts@[i as int]@.access_key_secret));
        stored.push(
            StoredAccount {
                name: from.name.clone(),
                access_key_id: from.access_key_id.clone(),
                access_key_secret_enc: encode_secret(from.access_key_secret.as_str()),
                endpoint: from.endpoint.clone(),
            },
        );
        i = i + 1;
    }
    stored
}

/// The stored form of the settings. Loading it gives the settings back, with the default for each
/// count and size that is zero.
pub fn save_config(cfg: ClientConfig) -> (stored: StoredConfig)
    requires
        secrets_fit(cfg@),
    ensures
        stored@ == saved(cfg@),
        loaded(stored@) == with_defaults(cfg@),
{
    let ghost given = cfg@;
    let access_key_secret_enc = encode_secret(cfg.access_key_secret.as_str());
    proof {
        assert forall|i: int| 0 <= i < cfg.accounts.len() implies secret_fits(
            (#[trigger] cfg.accounts@[i])@.access_key_secret,
        ) by {
            assert(given.accounts[i] == cfg.accounts@[i]@);
        }
    }
    let accounts = save_accounts(&cfg.accounts);
    let ghost from = cfg.accounts@;
    let stored = StoredConfig {
        access_key_id: cfg.access_key_id,
        access_key_secret_enc,
        endpoint: cfg.endpoint,
        bucket: cfg.bucket,
        prefix: cfg.prefix,
        remember: cfg.remember,
        jobs: cfg.jobs,
        parallel: cfg.parallel,
        part_size_mb: cfg.part_size_mb,
        ossutil_path: cfg.ossutil_path,
        cli_creds: cfg.cli_creds,
        max_tasks: cfg.max_tasks,
        accounts,
        buckets: cfg.buckets,
    };
    proof {
        let views = stored.accounts@.map_values(|a: StoredAccount| a@);
        assert forall|i: int| 0 <= i < views.len() implies views[i] == saved(given).accounts[i]
            && loaded_account(views[i]) == given.accounts[i] by {
            assert(stored.accounts@[i]@ == saved_account(from[i]@));
        }
        assert(stored@ =~= saved(given));
        assert(loaded(stored@).accounts =~= given.accounts);
        assert(loaded(stored@) =~= with_defaults(given));
    }
    stored
}

/// Settings without a zero count or size are their own form with defaults: saving them and loading
/// what was saved changes nothing.
pub proof fn lemma_with_defaults_keeps(config: ConfigView)
    requires
        config.jobs != 0,
        config.parallel != 0,
        config.part_size_mb != 0,
        config.max_tasks != 0,
    ensures
        with_defaults(config) == config,
{
}

/// Loaded settings have no zero count or size, whatever was stored; so saving them and loading what
/// was saved changes nothing.
pub proof fn lemma_loaded_is_settled(stored: StoredConfigView)
    ensures
        loaded(stored).jobs != 0,
        loaded(stored).parallel != 0,
        loaded(stored).part_size_mb != 0,
        loaded(stored).max_tasks != 0,
        with_defaults(loaded(stored)) == loaded(stored),
{
    assert(with_defaults(loaded(stored)) =~= loaded(stored));
}

/// The permission bits that a file with credentials gets, on a system that has such bits: its owner
/// may read and write it, and nobody else may do anything with it.
pub fn restrict_permissions(unix: bool) -> (mode: Option<u32>)
    ensures
        unix ==> mode == Some(0o600u32),
        !unix ==> mode is None,
{
    if unix {
        Some(0o600)
    } else {
        None
    }
}

/// Loading gives each setting as it was stored, but for the secrets, which are decoded, and for the
/// counts and sizes that are zero, which are 5 files, 8 parts, 16 megabytes and 3 transfers. Accounts
/// keep their number and their order.
pub proof fn lemma_settings_are_loaded(stored: StoredConfigView)
    ensures
        ({
            let c = loaded(stored);
            &&& c.access_key_id == stored.access_key_id
            &&& c.access_key_secret == decoded_secret(stored.access_key_secret_enc)
            &&& c.endpoint == stored.endpoint
            &&& c.bucket == stored.bucket
            &&& c.prefix == stored.prefix
            &&& c.remember == stored.remember
            &&& c.jobs == if stored.jobs == 0 {
                5
            } else {
                stored.jobs
            }
            &&& c.parallel == if stored.parallel == 0 {
                8
            } else {
                stored.parallel
            }
            &&& c.part_size_mb == if stored.part_size_mb == 0 {
                16
            } else {
                stored.part_size_mb
            }
            &&& c.ossutil_path == stored.ossutil_path
            &&& c.cli_creds == stored.cli_creds
            &&& c.max_tasks == if stored.max_tasks == 0 {
                3
            } else {
                stored.max_tasks
            }
            &&& c.accounts.len() == stored.accounts.len()
            &&& forall|i: int|
                0 <= i < stored.accounts.len() ==> {
                    let from = #[trigger] stored.accounts[i];
                    let to = c.accounts[i];
                    to.name == from.name && to.access_key_id == from.access_key_id
                        && to.access_key_secret == decoded_secret(from.access_key_secret_enc)
                        && to.endpoint == from.endpoint
                }
            &&& c.buckets == stored.buckets
        }),
{
}

/// Saving stores each setting as it is, zeros included, but for the secrets, which are stored in
/// base64. Accounts keep their number and their order.
pub proof fn lemma_settings_are_saved(config: ConfigView)
    ensures
        ({
            let s = saved(config);
            &&& s.access_key_id == config.access_key_id
            &&& s.access_key_secret_enc == outside::base64_encoded(
                encode_utf8(config.access_key_secret),
            )
            &&& s.endpoint == config.endpoint
            &&& s.bucket == config.bucket
            &&& s.prefix == config.prefix
            &&& s.remember == config.remember
            &&& s.jobs == config.jobs
            &&& s.parallel == config.parallel
            &&& s.part_size_mb == config.part_size_mb
            &&& s.ossutil_path == config.ossutil_path
            &&& s.cli_creds == config.cli_creds
            &&& s.max_tasks == config.max_tasks
            &&& s.accounts.len() == config.accounts.len()
            &&& forall|i: int|
                0 <= i < config.accounts.len() ==> {
                    let from = #[trigger] config.accounts[i];
                    let to = s.accounts[i];
                    to.name == from.name && to.access_key_id == from.access_key_id
                        && to.access_key_secret_enc == outside::base64_encoded(
                        encode_utf8(from.access_key_secret),
                    ) && to.endpoint == from.endpoint
                }
            &&& s.buckets == config.buckets
        }),
{
}

/// A secret is the text that its decoded bytes encode, all of it, and is empty where they encode none
/// or there are none.
pub proof fn lemma_secret_is_what_the_bytes_encode(bytes: Seq<u8>, enc: Seq<char>)
    ensures
        valid_utf8(bytes) ==> secret_of_bytes(Some(bytes)) == decode_utf8(bytes),
        !valid_utf8(bytes) ==> secret_of_bytes(Some(bytes)).len() == 0,
        secret_of_bytes(None).len() == 0,
        decoded_secret(enc) == secret_of_bytes(outside::base64_decoded(encode_utf8(enc))),
{
}

/// Nothing is set in the settings of a program that nothing was saved for, and its counts and sizes
/// are those that a zero stands for.
pub proof fn lemma_defaults_are_plain()
    ensures
        ({
            let c = default_config();
            &&& c.access_key_id.len() == 0 && c.access_key_secret.len() == 0
            &&& c.endpoint.len() == 0 && c.bucket.len() == 0 && c.prefix.len() == 0
            &&& c.ossutil_path.len() == 0 && c.accounts.len() == 0 && c.buckets.len() == 0
            &&& !c.remember && !c.cli_creds
            &&& c.jobs == 5 && c.parallel == 8 && c.part_size_mb == 16 && c.max_tasks == 3
        }),
        ({
            let c = blank_stored();
            &&& c.access_key_id.len() == 0 && c.access_key_secret_enc.len() == 0
            &&& c.endpoint.len() == 0 && c.bucket.len() == 0 && c.prefix.len() == 0
            &&& c.ossutil_path.len() == 0 && c.accounts.len() == 0 && c.buckets.len() == 0
            &&& !c.remember && !c.cli_creds
            &&& c.jobs == 0 && c.parallel == 0 && c.part_size_mb == 0 && c.max_tasks == 0
        }),
{
}

/// Settings say what they hold, field by field.
pub proof fn lemma_settings_say_what_they_hold(c: ClientConfig, i: int)
    ensures
        c@.access_key_id == c.access_key_id@,
        c@.access_key_secret == c.access_key_secret@,
        c@.endpoint == c.endpoint@,
        c@.bucket == c.bucket@,
        c@.prefix == c.prefix@,
        c@.remember == c.remember,
        c@.jobs == c.jobs,
        c@.parallel == c.parallel,
        c@.part_size_mb == c.part_size_mb,
        c@.ossutil_path == c.ossutil_path@,
        c@.cli_creds == c.cli_creds,
        c@.max_tasks == c.max_tasks,
        c@.accounts.len() == c.accounts@.len(),
        0 <= i < c.accounts@.len() ==> c@.accounts[i].name == c.accounts@[i].name@
            && c@.accounts[i].access_key_id == c.accounts@[i].access_key_id@
            && c@.accounts[i].access_key_secret == c.accounts@[i].access_key_secret@
            && c@.accounts[i].endpoint == c.accounts@[i].endpoint@,
        c@.buckets.len() == c.buckets@.len(),
        0 <= i < c.buckets@.len() ==> c@.buckets[i] == c.buckets@[i]@,
{
}

/// Stored settings say what they hold, field by field.
pub proof fn lemma_stored_settings_say_what_they_hold(c: StoredConfig, i: int)
    ensures
        c@.access_key_id == c.access_key_id@,
        c@.access_key_secret_enc == c.access_key_secret_enc@,
        c@.endpoint == c.endpoint@,
        c@.bucket == c.bucket@,
        c@.prefix == c.prefix@,
        c@.remember == c.remember,
        c@.jobs == c.jobs,
        c@.parallel == c.parallel,
        c@.part_size_mb == c.part_size_mb,
        c@.ossutil_path == c.ossutil_path@,
        c@.cli_creds == c.cli_creds,
        c@.max_tasks == c.max_tasks,
        c@.accounts.len() == c.accounts@.len(),
        0 <= i < c.accounts@.len() ==> c@.accounts[i].name == c.accounts@[i].name@
            && c@.accounts[i].access_key_id == c.accounts@[i].access_key_id@
            && c@.accounts[i].access_key_secret_enc == c.accounts@[i].access_key_secret_enc@
            && c@.accounts[i].endpoint == c.accounts@[i].endpoint@,
        c@.buckets.len() == c.buckets@.len(),
        0 <= i < c.buckets@.len() ==> c@.buckets[i] == c.buckets@[i]@,
{
}

/// Settings can be saved exactly where the base64 of each secret is no longer than a string can be:
/// four characters for each three bytes begun.
pub proof fn lemma_only_size_keeps_settings_from_being_saved(config: ConfigView)
    ensures
        ({
            let fit = |secret: Seq<char>|
                (encode_utf8(secret).len() + 2) / 3 * 4 <= isize::MAX;
            secrets_fit(config) <==> fit(config.access_key_secret) && forall|i: int|
                0 <= i < config.accounts.len() ==> fit(
                    (#[trigger] config.accounts[i]).access_key_secret,
                )
        }),
{
}

} // verus!
