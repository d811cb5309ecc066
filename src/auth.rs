use crate::records::{InternalJWT, LoginTable, JWT};
use vstd::prelude::*;

verus! {

/// The request may act for identity `id` in the role `isdoctor` only when a
/// verified credential carries exactly that identity and role.
pub open spec fn grants(claim: Option<JWT>, id: i64, isdoctor: bool) -> bool {
    match claim {
        Some(c) => c.id == id && c.isdoctor == isdoctor,
        None => false,
    }
}

/// Compares the identity a verified credential carries (`None` where the
/// credential was missing or rejected) with the identity and role a request
/// claims to act for.
pub fn authorize(claim: &Option<JWT>, given_id: i64, isdoctor: bool) -> (r: bool)
    ensures
        r == grants(*claim, given_id, isdoctor),
{
    match claim {
        Some(c) => c.id == given_id && c.isdoctor == isdoctor,
        None => false,
    }
}

/// The bytes of the word `Bearer`.
pub open spec fn bearer_word() -> Seq<u8> {
    seq![66u8, 101u8, 97u8, 114u8, 101u8, 114u8]
}

/// The word `Bearer` starts at byte `i` of `b`.
pub open spec fn word_at(b: Seq<u8>, i: int) -> bool {
    0 <= i && i + 6 <= b.len() && b.subrange(i, i + 6) == bearer_word()
}

fn word_at_exec(b: &[u8], i: usize) -> (r: bool)
    ensures
        r == word_at(b@, i as int),
{
    if i > b.len() || b.len() - i < 6 {
        return false;
    }
    let r = b[i] == 66 && b[i + 1] == 101 && b[i + 2] == 97 && b[i + 3] == 114 && b[i + 4] == 101
        && b[i + 5] == 114;
    proof {
        let w = b@.subrange(i as int, i as int + 6);
        if r {
            assert(w =~= bearer_word());
        } else if w == bearer_word() {
            assert(w[0] == b@[i as int] && w[1] == b@[i + 1] && w[2] == b@[i + 2]);
            assert(w[3] == b@[i + 3] && w[4] == b@[i + 4] && w[5] == b@[i + 5]);
        }
    }
    r
}

fn next_word_from(b: &[u8], from: usize) -> (r: Option<usize>)
    requires
        from <= b@.len(),
    ensures
        r matches Some(k) ==> from <= k < b@.len() && word_at(b@, k as int) && forall|j: int|
            from <= j < k ==> !word_at(b@, j),
        r is None ==> forall|j: int| from <= j < b@.len() ==> !word_at(b@, j),
{
    let mut k = from;
    while k < b.len()
        invariant
            from <= k <= b@.len(),
            forall|j: int| from <= j < k ==> !word_at(b@, j),
        decreases b@.len() - k,
    {
        if word_at_exec(b, k) {
            return Some(k);
        }
        k = k + 1;
    }
    None
}

/// Where the credential stands in an `Authorization` header, as a byte range:
/// the text between the first `Bearer` and the next one (or the end), or the
/// whole header where the word does not occur.
pub fn bearer_span(header: &[u8]) -> (r: (usize, usize))
    ensures
        r.0 <= r.1 <= header@.len(),
        (forall|j: int| 0 <= j < header@.len() ==> !word_at(header@, j)) ==> r == (
            0usize,
            header@.len() as usize,
        ),
        (exists|j: int| 0 <= j < header@.len() && word_at(header@, j)) ==> {
            &&& word_at(header@, r.0 - 6)
            &&& forall|j: int| 0 <= j < r.0 - 6 ==> !word_at(header@, j)
            &&& forall|j: int| r.0 <= j < r.1 ==> !word_at(header@, j)
            &&& (r.1 == header@.len() || word_at(header@, r.1 as int))
        },
{
    let n = header.len();
    match next_word_from(header, 0) {
        None => (0, n),
        Some(k) => {
            let start = k + 6;
            match next_word_from(header, start) {
                None => (start, n),
                Some(e) => (start, e),
            }
        },
    }
}

/// The integer that std's `str::parse::<i64>` reads from `s`, if it reads one.
pub uninterp spec fn decimal_i64(s: Seq<char>) -> Option<int>;

/// Relies on str::parse::<i64>: the outcome depends on the text alone.
#[verifier::external_body]
fn parse_i64(s: &str) -> (r: Option<i64>)
    ensures
        r is Some <==> decimal_i64(s@) is Some,
        r matches Some(v) ==> decimal_i64(s@) == Some(v as int),
{
    s.parse::<i64>().ok()
}

impl InternalJWT {
    /// The identity these claims carry: the id is stored as decimal text.
    pub open spec fn spec_identity(&self) -> Option<JWT> {
        match decimal_i64(self.id@) {
            Some(v) => Some(JWT { isdoctor: self.isdoctor, id: v as i64 }),
            None => None,
        }
    }

    pub fn identity(&self) -> (r: Option<JWT>)
        ensures
            r == self.spec_identity(),
    {
        match parse_i64(self.id.as_str()) {
            Some(v) => Some(JWT { isdoctor: self.isdoctor, id: v }),
            None => None,
        }
    }
}


/// What argon_hash_password reports when `password` is checked against a stored
/// hash and salt: `Some(matches)`, or `None` where the check fails.
pub uninterp spec fn argon_verdict(password: Seq<char>, hash: Seq<char>, salt: Seq<char>) -> Option<
    bool,
>;

/// Relies on argon_hash_password::check_password_matches_hash: it hashes the
/// password with the given salt under Argon2's default parameters and compares
/// the result with the stored hash; the outcome depends on the three texts alone.
#[verifier::external_body]
fn check_password(password: &str, hash: &str, salt: &str) -> (r: Option<bool>)
    ensures
        r == argon_verdict(password@, hash@, salt@),
{
    argon_hash_password::check_password_matches_hash(password, hash, salt).ok()
}

impl LoginTable {
    /// Whether `password` is the one this stored credential was made from; a
    /// check that cannot be carried out refuses.
    pub fn accepts(&self, password: &String) -> (r: bool)
        ensures
            r == (argon_verdict(password@, self.hashedpass@, self.salt@) == Some(true)),
    {
        match check_password(password.as_str(), self.hashedpass.as_str(), self.salt.as_str()) {
            Some(ok) => ok,
            None => false,
        }
    }
}

} // verus!
