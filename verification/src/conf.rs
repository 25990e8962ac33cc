//! The read-only configuration the broker authenticates against.

use vstd::prelude::*;
use vstd::string::StringSliceAdditionalSpecFns;
use vstd::utf8::encode_utf8;

verus! {

/// One authorized client identity.
#[derive(Debug, Clone, PartialEq, Eq)]
pub struct ClientConfig {
    pub user: String,
    /// The forwarding port assigned to this client.
    pub port: u16,
    pub protocol: String,
    pub secret_key: String,
}

/// Where the broker listens and whom it serves.
#[derive(Debug, Clone, PartialEq, Eq)]
pub struct Conf {
    pub bind_ip: String,
    pub server_port: u16,
    pub client: Vec<ClientConfig>,
}

/// Equality of byte strings of equal length in time that depends on the
/// length alone, never on where the first difference lies.
pub fn constant_time_eq(a: &[u8], b: &[u8]) -> (same: bool)
    ensures
        same == (a@ == b@),
{
    if a.len() != b.len() {
        return false;
    }
    let mut diff: u8 = 0;
    let mut i: usize = 0;
    assert(a@.subrange(0, 0) =~= b@.subrange(0, 0));
    while i < a.len()
        invariant
            i <= a.len(),
            a.len() == b.len(),
            (diff == 0) == (a@.subrange(0, i as int) == b@.subrange(0, i as int)),
        decreases a.len() - i,
    {
        let x: u8 = a[i];
        let y: u8 = b[i];
        let ghost before: u8 = diff;
        diff = diff | (x ^ y);
        proof {
            assert((before | (x ^ y)) == 0 <==> (before == 0 && x == y)) by (bit_vector);
            let pa = a@.subrange(0, i as int);
            let pb = b@.subrange(0, i as int);
            let qa = a@.subrange(0, i + 1);
            let qb = b@.subrange(0, i + 1);
            assert(qa =~= pa.push(x));
            assert(qb =~= pb.push(y));
            if qa == qb {
                assert(pa =~= qa.drop_last());
                assert(pb =~= qb.drop_last());
                assert(qa.last() == qb.last());
            }
        }
        i += 1;
    }
    proof {
        assert(a@.subrange(0, i as int) =~= a@);
        assert(b@.subrange(0, i as int) =~= b@);
    }
    diff == 0
}

/// Equality of strings, compared in constant time for a given pair of lengths.
pub fn text_eq(a: &str, b: &str) -> (same: bool)
    ensures
        same == (a@ == b@),
{
    let same = constant_time_eq(a.as_bytes(), b.as_bytes());
    proof {
        vstd::utf8::encode_utf8_decode_utf8(a@);
        vstd::utf8::encode_utf8_decode_utf8(b@);
        assert(a.spec_bytes() == encode_utf8(a@));
        assert(b.spec_bytes() == encode_utf8(b@));
    }
    same
}

impl ClientConfig {
    /// Whether this identity is the one that `(name, secret)` names: both must match exactly.
    pub open spec fn admits(&self, name: Seq<char>, secret: Seq<char>) -> bool {
        self.user@ == name && self.secret_key@ == secret
    }

    /// Tests `(name, secret)` against this identity. Both comparisons always
    /// run, so the time taken does not tell a wrong name from a wrong secret.
    pub fn matches(&self, name: &str, secret: &str) -> (b: bool)
        ensures
            b == self.admits(name@, secret@),
    {
        let user_ok = text_eq(self.user.as_str(), name);
        let secret_ok = text_eq(self.secret_key.as_str(), secret);
        user_ok && secret_ok
    }
}

impl Conf {
    /// Whether some configured identity is named by `(name, secret)`.
    pub open spec fn authorizes(&self, name: Seq<char>, secret: Seq<char>) -> bool {
        exists|i: int| 0 <= i < self.client@.len() && (#[trigger] self.client@[i]).admits(name, secret)
    }

    /// No two configured identities share a user name.
    pub open spec fn users_unique(&self) -> bool {
        forall|i: int, j: int|
            0 <= i < j < self.client@.len() ==> (#[trigger] self.client@[i]).user@ != (
            #[trigger] self.client@[j]).user@
    }

    /// Whether entry `i` is the first one that `(name, secret)` names.
    pub open spec fn is_first_match(&self, i: int, name: Seq<char>, secret: Seq<char>) -> bool {
        &&& 0 <= i < self.client@.len()
        &&& self.client@[i].admits(name, secret)
        &&& forall|j: int| 0 <= j < i ==> !(#[trigger] self.client@[j]).admits(name, secret)
    }

    /// The position of the first configured identity that `(name, secret)` names.
    pub open spec fn first_match(&self, name: Seq<char>, secret: Seq<char>) -> Option<int> {
        if exists|i: int| self.is_first_match(i, name, secret) {
            Some(choose|i: int| self.is_first_match(i, name, secret))
        } else {
            None
        }
    }

    /// There is a first match exactly when there is a match, and it is the
    /// only position that qualifies as first.
    pub proof fn lemma_first_match(&self, name: Seq<char>, secret: Seq<char>)
        ensures
            self.first_match(name, secret).is_some() == self.authorizes(name, secret),
            forall|i: int| #[trigger]
                self.is_first_match(i, name, secret) ==> self.first_match(name, secret) == Some(i),
    {
        if self.authorizes(name, secret) {
            let k = choose|i: int|
                0 <= i < self.client@.len() && (#[trigger] self.client@[i]).admits(name, secret);
            self.lemma_least_match(k, name, secret);
        }
        assert forall|i: int| #[trigger] self.is_first_match(i, name, secret) implies self.first_match(
            name,
            secret,
        ) == Some(i) by {
            let c = choose|c: int| self.is_first_match(c, name, secret);
            if c < i {
                assert(!self.client@[c].admits(name, secret));
            } else if i < c {
                assert(!self.client@[i].admits(name, secret));
            }
        }
    }

    /// Below any match lies a first match.
    proof fn lemma_least_match(&self, k: int, name: Seq<char>, secret: Seq<char>)
        requires
            0 <= k < self.client@.len(),
            self.client@[k].admits(name, secret),
        ensures
            exists|i: int| self.is_first_match(i, name, secret),
        decreases k,
    {
        if exists|j: int| 0 <= j < k && (#[trigger] self.client@[j]).admits(name, secret) {
            let j = choose|j: int| 0 <= j < k && (#[trigger] self.client@[j]).admits(name, secret);
            self.lemma_least_match(j, name, secret);
        } else {
            assert(self.is_first_match(k, name, secret));
        }
    }

    /// Looks up the identity that `(name, secret)` names: the first entry
    /// whose user and secret both match exactly. Every entry is examined,
    /// whether or not a match was already seen.
    pub fn find_client(&self, name: &str, secret: &str) -> (found: Option<usize>)
        ensures
            match found {
                Some(i) => self.first_match(name@, secret@) == Some(i as int),
                None => self.first_match(name@, secret@).is_none(),
            },
            found.is_some() == self.authorizes(name@, secret@),
    {
        let mut found: Option<usize> = None;
        let mut i: usize = 0;
        while i < self.client.len()
            invariant
                i <= self.client@.len(),
                match found {
                    Some(k) => k < i && self.is_first_match(k as int, name@, secret@),
                    None => forall|j: int| 0 <= j < i ==> !(#[trigger] self.client@[j]).admits(name@, secret@),
                },
            decreases self.client@.len() - i,
        {
            let hit = self.client[i].matches(name, secret);
            if hit && found.is_none() {
                found = Some(i);
            }
            i += 1;
        }
        proof {
            self.lemma_first_match(name@, secret@);
        }
        found
    }

    /// Checks that no user name is configured twice.
    pub fn has_unique_users(&self) -> (b: bool)
        ensures
            b == self.users_unique(),
    {
        let n = self.client.len();
        let mut j: usize = 0;
        while j < n
            invariant
                j <= n,
                n == self.client@.len(),
                forall|a: int, b: int|
                    0 <= a < b < j ==> (#[trigger] self.client@[a]).user@ != (
                    #[trigger] self.client@[b]).user@,
            decreases n - j,
        {
            let mut i: usize = 0;
            while i < j
                invariant
                    i <= j < n,
                    n == self.client@.len(),
                    forall|a: int| 0 <= a < i ==> (#[trigger] self.client@[a]).user@ != self.client@[j as int].user@,
                decreases j - i,
            {
                if text_eq(self.client[i].user.as_str(), self.client[j].user.as_str()) {
                    return false;
                }
                i += 1;
            }
            j += 1;
        }
        true
    }
}

} // verus!
