use vstd::prelude::*;
use vstd::string::StringSliceAdditionalSpecFns;

use data_encoding::BASE64URL_NOPAD;

use crate::crypto::{
    argon2id_of, derivation_accepts, get_random_bytes, hash_matches, hash_password, hex_lower,
    verify_password_hash, OUTPUT_LEN,
};

verus! {

/// Time cost of the Argon2id hash that gates a record.
pub const PASSWORD_ITER: i32 = 2;

/// Memory cost, in KiB, of the Argon2id hash that gates a record.
pub const PASSWORD_MEM: i32 = 1_048_576;

/// Lanes of the Argon2id hash that gates a record.
pub const PASSWORD_PARA: i32 = 8;

/// Identifier of a secret record: a UUID in its hyphenated lowercase text form.
pub struct SendId(pub String);

/// Identifier of a file attached to a secret record.
pub struct SendFileId(pub String);

/// Identifier of a user.
pub struct UserId(pub String);

/// Identifier of an organization.
pub struct OrganizationId(pub String);

/// What the payload of a secret record holds.
#[derive(Clone, Copy, PartialEq, Eq, Structural, Debug)]
pub enum SendType {
    Text,
    File,
}

impl SendType {
    /// The number under which the kind is stored.
    pub open spec fn spec_code(self) -> i32 {
        match self {
            SendType::Text => 0,
            SendType::File => 1,
        }
    }

    /// The number under which the kind is stored: 0 for text, 1 for a file.
    pub fn code(self) -> (r: i32)
        ensures
            r == self.spec_code(),
    {
        match self {
            SendType::Text => 0,
            SendType::File => 1,
        }
    }
}

/// The password that gates a record: hash, salt and the cost parameters, all set together.
pub struct PasswordGate {
    pub hash: Vec<u8>,
    pub salt: Vec<u8>,
    pub iterations: i32,
    pub memory: i32,
    pub parallelism: i32,
}

/// A self-destructing shared item. Dates count microseconds since the Unix epoch, in UTC.
pub struct Send {
    pub uuid: SendId,
    pub user_uuid: Option<UserId>,
    pub organization_uuid: Option<OrganizationId>,
    pub name: String,
    pub notes: Option<String>,
    pub atype: i32,
    pub data: String,
    pub akey: String,
    pub password: Option<PasswordGate>,
    pub max_access_count: Option<i32>,
    pub access_count: i32,
    pub creation_date: i64,
    pub revision_date: i64,
    pub expiration_date: Option<i64>,
    pub deletion_date: i64,
    pub disabled: bool,
    pub hide_email: Option<bool>,
}

/// Hyphenated lowercase text of a 16-byte UUID: groups of 4, 2, 2, 2 and 6 bytes.
pub open spec fn uuid_text(b: Seq<u8>) -> Seq<char> {
    hex_lower(b.subrange(0, 4)) + seq!['-'] + hex_lower(b.subrange(4, 6)) + seq!['-']
        + hex_lower(b.subrange(6, 8)) + seq!['-'] + hex_lower(b.subrange(8, 10)) + seq!['-']
        + hex_lower(b.subrange(10, 16))
}

/// Whether `s` is the hyphenated lowercase text of some UUID.
pub open spec fn is_uuid_text(s: Seq<char>) -> bool {
    exists|b: Seq<u8>| b.len() == 16 && s == #[trigger] uuid_text(b)
}

/// The bytes that URL-safe unpadded base64 text decodes to, or `None` where it is not such text.
pub uninterp spec fn base64url_decoded_of(text: Seq<u8>) -> Option<Seq<u8>>;

/// URL-safe unpadded base64 text of a byte string.
pub uninterp spec fn base64url_of(b: Seq<u8>) -> Seq<char>;

/// The 16 bytes of the UUID that a text denotes, in any form uuid accepts, or `None`.
pub uninterp spec fn uuid_parsed_of(s: Seq<char>) -> Option<Seq<u8>>;

/// The base-10 integer that a text denotes when it fits in an `i64`, or `None`.
pub uninterp spec fn parsed_i64_of(s: Seq<char>) -> Option<i64>;

/// Relies on chrono's `Utc::now`, read as microseconds since the Unix epoch.
#[verifier::external_body]
fn now_micros() -> i64 {
    chrono::Utc::now().timestamp_micros()
}

/// Relies on uuid's `Uuid::new_v4` and its hyphenated lowercase `Display`: the text of 16
/// bytes, most of them random.
#[verifier::external_body]
fn new_uuid_text() -> (r: String)
    ensures
        is_uuid_text(r@),
{
    uuid::Uuid::new_v4().to_string()
}

/// Relies on uuid's `Uuid::from_slice`, which accepts exactly 16 bytes, and on the hyphenated
/// lowercase `Display` of the UUID it builds.
#[verifier::external_body]
fn uuid_text_of(b: &[u8]) -> (r: String)
    requires
        b@.len() == 16,
    ensures
        r@ == uuid_text(b@),
{
    uuid::Uuid::from_slice(b).unwrap().to_string()
}

/// Relies on uuid's `Uuid::parse_str`: the 16 bytes of the UUID that the text denotes.
#[verifier::external_body]
fn uuid_parse(s: &str) -> (r: Option<Vec<u8>>)
    ensures
        match r {
            Some(v) => uuid_parsed_of(s@) == Some(v@) && v@.len() == 16,
            None => uuid_parsed_of(s@) is None,
        },
{
    uuid::Uuid::parse_str(s).ok().map(|u| u.as_bytes().to_vec())
}

/// Relies on data-encoding's `BASE64URL_NOPAD.encode`.
#[verifier::external_body]
fn base64url_encode(b: &[u8]) -> (r: String)
    ensures
        r@ == base64url_of(b@),
{
    BASE64URL_NOPAD.encode(b)
}

/// Relies on data-encoding's `BASE64URL_NOPAD.decode`.
#[verifier::external_body]
fn base64url_decode(text: &[u8]) -> (r: Option<Vec<u8>>)
    ensures
        match r {
            Some(v) => base64url_decoded_of(text@) == Some(v@),
            None => base64url_decoded_of(text@) is None,
        },
{
    BASE64URL_NOPAD.decode(text).ok()
}

/// Relies on `str::parse::<i64>`: an optional sign and decimal digits that fit in an `i64`.
#[verifier::external_body]
fn parse_i64(s: &str) -> (r: Option<i64>)
    ensures
        r == parsed_i64_of(s@),
{
    s.parse::<i64>().ok()
}

/// Whether `gate` is what `set_password` stores for the password bytes `password`.
pub open spec fn gate_made_from(gate: PasswordGate, password: Seq<u8>) -> bool {
    &&& gate.iterations == PASSWORD_ITER
    &&& gate.memory == PASSWORD_MEM
    &&& gate.parallelism == PASSWORD_PARA
    &&& gate.salt@.len() == 64
    &&& gate.hash@ == argon2id_of(
        password,
        gate.salt@,
        PASSWORD_ITER as u32,
        PASSWORD_MEM as u32,
        PASSWORD_PARA as u32,
        OUTPUT_LEN as nat,
    )
    &&& gate.hash@.len() == OUTPUT_LEN
}

/// Whether the password bytes `candidate` unlock `gate`: some derivation accepts its cost
/// parameters, and its hash is the hash of those bytes.
pub open spec fn gate_opens(gate: PasswordGate, candidate: Seq<u8>) -> bool {
    &&& derivation_accepts(
        candidate.len(),
        gate.salt@.len(),
        gate.iterations as u32,
        gate.memory as u32,
        gate.parallelism as u32,
        gate.hash@.len(),
    )
    &&& hash_matches(
        candidate,
        gate.salt@,
        gate.hash@,
        gate.iterations as u32,
        gate.memory as u32,
        gate.parallelism as u32,
    )
}

/// Exec form of `derivation_accepts`.
fn derivation_accepted(
    secret_len: usize,
    salt_len: usize,
    iterations: u32,
    memory: u32,
    parallelism: u32,
    len: usize,
) -> (r: bool)
    ensures
        r == derivation_accepts(secret_len as nat, salt_len as nat, iterations, memory, parallelism, len as nat),
{
    let max: usize = 0xFFFF_FFFF;
    if memory == 0 && parallelism == 0 {
        iterations >= 1 && secret_len <= max && salt_len <= max && len <= max
    } else {
        1 <= parallelism && parallelism <= 0xFF_FFFF && memory as u64 >= 8 * (parallelism as u64)
            && iterations >= 1 && secret_len <= max && 8 <= salt_len && salt_len <= max && 4 <= len
            && len <= max
    }
}

impl Send {
    /// Whether the record holds a file.
    pub open spec fn spec_is_file(&self) -> bool {
        self.atype == SendType::File.spec_code()
    }

    /// A new record of kind `atype`, with a fresh identifier, no owner, no password, no
    /// accesses yet, not disabled, created and revised now, destroyed at `deletion_date`.
    pub fn new(atype: i32, name: String, data: String, akey: String, deletion_date: i64) -> (r: Self)
        ensures
            is_uuid_text(r.uuid.0@),
            r.user_uuid is None,
            r.organization_uuid is None,
            r.name == name,
            r.notes is None,
            r.atype == atype,
            r.data == data,
            r.akey == akey,
            r.password is None,
            r.max_access_count is None,
            r.access_count == 0,
            r.creation_date == r.revision_date,
            r.expiration_date is None,
            r.deletion_date == deletion_date,
            !r.disabled,
            r.hide_email is None,
    {
        let now = now_micros();
        Send {
            uuid: SendId(new_uuid_text()),
            user_uuid: None,
            organization_uuid: None,
            name,
            notes: None,
            atype,
            data,
            akey,
            password: None,
            max_access_count: None,
            access_count: 0,
            creation_date: now,
            revision_date: now,
            expiration_date: None,
            deletion_date,
            disabled: false,
            hide_email: None,
        }
    }

    /// Sets the password that gates the record, with a fresh 64-byte salt and the fixed
    /// Argon2id cost parameters, or clears it; the other fields stay as they were.
    pub fn set_password(&mut self, password: Option<&str>)
        requires
            password matches Some(p) ==> p.spec_bytes().len() <= u32::MAX,
        ensures
            match password {
                Some(p) => final(self).password matches Some(g) && gate_made_from(g, p.spec_bytes()),
                None => final(self).password is None,
            },
            (Send { password: None, ..*final(self) }) == (Send { password: None, ..*old(self) }),
    {
        match password {
            Some(p) => {
                let salt_bytes = get_random_bytes::<64>();
                let salt = vstd::slice::slice_to_vec(&salt_bytes);
                let hash = hash_password(
                    p.as_bytes(),
                    salt.as_slice(),
                    PASSWORD_ITER as u32,
                    PASSWORD_MEM as u32,
                    PASSWORD_PARA as u32,
                );
                self.password = Some(
                    PasswordGate {
                        hash,
                        salt,
                        iterations: PASSWORD_ITER,
                        memory: PASSWORD_MEM,
                        parallelism: PASSWORD_PARA,
                    },
                );
            },
            None => {
                self.password = None;
            },
        }
    }

    /// Whether the password bytes `candidate` open the record.
    pub open spec fn password_accepted(&self, candidate: Seq<u8>) -> bool {
        match self.password {
            Some(g) => gate_opens(g, candidate),
            None => false,
        }
    }

    /// Whether `password` opens the record. A record without a password, or with stored cost
    /// parameters that no derivation accepts, opens to nothing.
    pub fn check_password(&self, password: &str) -> (r: bool)
        ensures
            r == self.password_accepted(password.spec_bytes()),
    {
        match &self.password {
            Some(g) => {
                let secret = password.as_bytes();
                let it = g.iterations as u32;
                let mem = g.memory as u32;
                let para = g.parallelism as u32;
                if derivation_accepted(secret.len(), g.salt.len(), it, mem, para, g.hash.len()) {
                    verify_password_hash(secret, g.salt.as_slice(), g.hash.as_slice(), it, mem, para)
                } else {
                    false
                }
            },
            None => false,
        }
    }
}

/// Outcome of an attempt to store a record by atomic replacement.
#[derive(Clone, Copy, PartialEq, Eq, Structural, Debug)]
pub enum ReplaceOutcome {
    Replaced,
    /// The store refused to delete the old row, which another row references.
    ForeignKeyViolation,
    Failed,
}

/// What a save does after an attempt at atomic replacement.
#[derive(Clone, Copy, PartialEq, Eq, Structural, Debug)]
pub enum SaveStep {
    Done,
    /// Update the stored row in place instead.
    UpdateInPlace,
    Fail,
}

/// A save that could not replace the row because another row references it falls back to an
/// update in place; any other failure is reported.
pub fn after_replace(outcome: ReplaceOutcome) -> (r: SaveStep)
    ensures
        r == match outcome {
            ReplaceOutcome::Replaced => SaveStep::Done,
            ReplaceOutcome::ForeignKeyViolation => SaveStep::UpdateInPlace,
            ReplaceOutcome::Failed => SaveStep::Fail,
        },
{
    match outcome {
        ReplaceOutcome::Replaced => SaveStep::Done,
        ReplaceOutcome::ForeignKeyViolation => SaveStep::UpdateInPlace,
        ReplaceOutcome::Failed => SaveStep::Fail,
    }
}

/// A size as a record's payload declares it: a number, or text that should hold one.
pub enum DeclaredSize {
    Number(i64),
    Text(String),
}

/// The integer that a declared size stands for, if any.
pub open spec fn size_value(d: DeclaredSize) -> Option<i64> {
    match d {
        DeclaredSize::Number(n) => Some(n),
        DeclaredSize::Text(t) => parsed_i64_of(t@),
    }
}

/// Sum of the sizes that stand for an integer, added from the first on; `None` as soon as a
/// partial sum leaves the range of `i64`. Sizes that stand for no integer are skipped.
pub open spec fn checked_total(sizes: Seq<DeclaredSize>) -> Option<i64>
    decreases sizes.len(),
{
    if sizes.len() == 0 {
        Some(0)
    } else {
        match checked_total(sizes.drop_last()) {
            None => None,
            Some(t) => match size_value(sizes.last()) {
                None => Some(t),
                Some(v) => if i64::MIN <= t + v <= i64::MAX {
                    Some((t + v) as i64)
                } else {
                    None
                },
            },
        }
    }
}

/// The integer a declared size stands for: the number itself, or the text read as a base-10
/// `i64`.
pub fn declared_size_value(d: &DeclaredSize) -> (r: Option<i64>)
    ensures
        r == size_value(*d),
{
    match d {
        DeclaredSize::Number(n) => Some(*n),
        DeclaredSize::Text(t) => parse_i64(t.as_str()),
    }
}

/// Total of the sizes declared by one owner's file records, or `None` where the running sum
/// overflows.
pub fn size_by_user(sizes: &Vec<DeclaredSize>) -> (r: Option<i64>)
    ensures
        r == checked_total(sizes@),
{
    let mut total: i64 = 0;
    let mut i: usize = 0;
    while i < sizes.len()
        invariant
            i <= sizes@.len(),
            checked_total(sizes@.subrange(0, i as int)) == Some(total),
        decreases sizes@.len() - i,
    {
        assert(sizes@.subrange(0, i + 1).drop_last() == sizes@.subrange(0, i as int));
        match declared_size_value(&sizes[i]) {
            Some(v) => {
                match total.checked_add(v) {
                    Some(t) => {
                        total = t;
                    },
                    None => {
                        proof {
                            lemma_overflow_stays(sizes@, i as int + 1);
                        }
                        return None;
                    },
                }
            },
            None => {},
        }
        i = i + 1;
    }
    assert(sizes@.subrange(0, i as int) == sizes@);
    Some(total)
}

/// Exact sum of the sizes that stand for an integer.
pub open spec fn exact_total(sizes: Seq<DeclaredSize>) -> int
    decreases sizes.len(),
{
    if sizes.len() == 0 {
        0
    } else {
        exact_total(sizes.drop_last()) + match size_value(sizes.last()) {
            Some(v) => v as int,
            None => 0,
        }
    }
}

/// A total that `size_by_user` reports is the exact sum, so a sum outside the range of `i64`
/// is always reported as an overflow, never as a wrong total.
pub proof fn lemma_total_is_exact(sizes: Seq<DeclaredSize>)
    ensures
        checked_total(sizes) matches Some(t) ==> t as int == exact_total(sizes),
        (exact_total(sizes) > i64::MAX || exact_total(sizes) < i64::MIN) ==> checked_total(sizes) is None,
    decreases sizes.len(),
{
    if sizes.len() > 0 {
        lemma_total_is_exact(sizes.drop_last());
    }
}

/// Once a prefix overflows, every longer prefix does.
proof fn lemma_overflow_stays(sizes: Seq<DeclaredSize>, n: int)
    requires
        0 <= n <= sizes.len(),
        checked_total(sizes.subrange(0, n)) is None,
    ensures
        checked_total(sizes) is None,
    decreases sizes.len() - n,
{
    if n < sizes.len() {
        assert(sizes.subrange(0, n + 1).drop_last() == sizes.subrange(0, n));
        lemma_overflow_stays(sizes, n + 1);
    } else {
        assert(sizes.subrange(0, n) == sizes);
    }
}

/// Access id that `find_by_access_id` reads back: the 16 bytes of the record's UUID (all zero
/// where the identifier is no UUID) in URL-safe unpadded base64.
pub open spec fn access_id_of(uuid: Seq<char>) -> Seq<char> {
    base64url_of(
        match uuid_parsed_of(uuid) {
            Some(b) => b,
            None => Seq::new(16, |i: int| 0u8),
        },
    )
}

/// The identifier that an access id denotes, or `None` where it is no URL-safe unpadded base64
/// text of 16 bytes.
pub open spec fn send_id_of_access_id(access_id: Seq<u8>) -> Option<Seq<char>> {
    match base64url_decoded_of(access_id) {
        Some(b) => if b.len() == 16 {
            Some(uuid_text(b))
        } else {
            None
        },
        None => None,
    }
}

/// The record identifier that an access id stands for. Text that does not decode, or decodes
/// to anything but 16 bytes, yields `None`, as a record that does not exist would.
pub fn find_by_access_id(access_id: &str) -> (r: Option<SendId>)
    ensures
        match send_id_of_access_id(access_id.spec_bytes()) {
            Some(s) => r matches Some(id) && id.0@ == s,
            None => r is None,
        },
{
    match base64url_decode(access_id.as_bytes()) {
        Some(bytes) => {
            if bytes.len() == 16 {
                Some(SendId(uuid_text_of(bytes.as_slice())))
            } else {
                None
            }
        },
        None => None,
    }
}

/// Indices, in increasing order, of the records whose deletion date is strictly before `now`.
pub fn find_by_past_deletion_date(sends: &Vec<Send>, now: i64) -> (r: Vec<usize>)
    ensures
        forall|k: int| 0 <= k < r@.len() ==> r@[k] < sends@.len() && sends@[r@[k] as int].deletion_date < now,
        forall|j: int, k: int| 0 <= j < k < r@.len() ==> r@[j] < r@[k],
        forall|i: int| 0 <= i < sends@.len() && sends@[i].deletion_date < now ==> exists|k: int| 0 <= k < r@.len() && r@[k] == i,
{
    let mut r: Vec<usize> = Vec::new();
    let mut i: usize = 0;
    while i < sends.len()
        invariant
            i <= sends@.len(),
            forall|k: int| 0 <= k < r@.len() ==> r@[k] < i && sends@[r@[k] as int].deletion_date < now,
            forall|j: int, k: int| 0 <= j < k < r@.len() ==> r@[j] < r@[k],
            forall|m: int| 0 <= m < i && sends@[m].deletion_date < now ==> exists|k: int| 0 <= k < r@.len() && r@[k] == m,
        decreases sends@.len() - i,
    {
        let ghost r0 = r@;
        if sends[i].deletion_date < now {
            r.push(i);
        }
        assert forall|m: int| 0 <= m < i + 1 && sends@[m].deletion_date < now implies exists|k: int|
            0 <= k < r@.len() && r@[k] == m by {
            if m < i {
                let k = choose|k: int| 0 <= k < r0.len() && r0[k] == m;
                assert(r@[k] == m);
            } else {
                assert(r@[r@.len() - 1] == m);
            }
        }
        i = i + 1;
    }
    r
}

impl Send {
    /// Whether the record is due for purging at `now`: its deletion date is strictly earlier.
    pub fn is_past_deletion_date(&self, now: i64) -> (r: bool)
        ensures
            r == (self.deletion_date < now),
    {
        self.deletion_date < now
    }

    /// Whether deleting the record must also remove stored file contents.
    pub fn has_stored_files(&self) -> (r: bool)
        ensures
            r == self.spec_is_file(),
    {
        self.atype == SendType::File.code()
    }

    /// Marks the record as revised at `now`.
    pub fn mark_revised(&mut self, now: i64)
        ensures
            (Send { revision_date: 0, ..*final(self) }) == (Send { revision_date: 0, ..*old(self) }),
            final(self).revision_date == now,
    {
        self.revision_date = now;
    }

    /// The users whose sync revision a change of the record makes stale: the owning user, if
    /// any. Records of an organization notify nobody.
    pub fn update_users_revision(&self) -> (r: Vec<UserId>)
        ensures
            match self.user_uuid {
                Some(u) => r@.len() == 1 && r@[0].0@ == u.0@,
                None => r@.len() == 0,
            },
    {
        let mut users: Vec<UserId> = Vec::new();
        match &self.user_uuid {
            Some(u) => {
                users.push(UserId(u.0.clone()));
            },
            None => {},
        }
        users
    }

    /// Identity shown to a recipient: the owning user's address `owner_email`, unless the
    /// record hides it or has no owning user.
    pub fn creator_identifier(&self, owner_email: Option<String>) -> (r: Option<String>)
        ensures
            r == if self.hide_email == Some(true) || self.user_uuid is None {
                None
            } else {
                owner_email
            },
    {
        match self.hide_email {
            Some(true) => {
                return None;
            },
            _ => {},
        }
        match &self.user_uuid {
            Some(_) => owner_email,
            None => None,
        }
    }

    /// The id under which recipients reach the record.
    pub fn access_id(&self) -> (r: String)
        ensures
            r@ == access_id_of(self.uuid.0@),
    {
        let bytes = match uuid_parse(self.uuid.0.as_str()) {
            Some(b) => b,
            None => vec![0u8; 16],
        };
        proof {
            assert(bytes@ == match uuid_parsed_of(self.uuid.0@) {
                Some(b) => b,
                None => Seq::new(16, |i: int| 0u8),
            });
        }
        base64url_encode(bytes.as_slice())
    }
}

/// A password just set opens the record and a cleared one opens it to nothing.
pub proof fn lemma_set_then_check(s: Send, password: Seq<u8>, candidate: Seq<u8>)
    requires
        password.len() <= u32::MAX,
    ensures
        (s.password matches Some(g) && gate_made_from(g, password)) ==> s.password_accepted(password),
        s.password is None ==> !s.password_accepted(candidate),
{
}

} // verus!
