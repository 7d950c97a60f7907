use vstd::prelude::*;
use vstd::string::{StrSliceExecFns, StringExecFns};

verus! {

pub open spec fn digit_char(d: nat) -> char {
    (('0' as nat) + d) as char
}

/// Decimal digits of a natural number, most significant first.
pub open spec fn decimal(n: nat) -> Seq<char>
    decreases n,
{
    if n < 10 {
        seq![digit_char(n)]
    } else {
        decimal(n / 10).push(digit_char(n % 10))
    }
}

pub open spec fn state_prefix() -> Seq<char> {
    seq!['s', 't', 'a', 't', 'e', ':']
}

/// The one-character tag that records whether a login session was built on
/// a stored record (`r`) or on a fake one for an unknown identifier (`f`).
pub open spec fn record_tag(is_fake: bool) -> char {
    if is_fake {
        'f'
    } else {
        'r'
    }
}

/// The session token of a login: `state:{identifier}:{millis}:{tag}`.
pub open spec fn state_key_of(id: Seq<char>, millis: nat, is_fake: bool) -> Seq<char> {
    state_prefix() + id + seq![':'] + decimal(millis) + seq![':', record_tag(is_fake)]
}

/// A token whose last two characters are `:f` was issued on a fake record.
pub open spec fn has_fake_tag(key: Seq<char>) -> bool {
    key.len() >= 2 && key[key.len() - 2] == ':' && key[key.len() - 1] == 'f'
}

/// A token belongs to an identifier when it starts with `state:{identifier}:`.
pub open spec fn token_belongs_to(key: Seq<char>, id: Seq<char>) -> bool {
    let p = state_prefix() + id + seq![':'];
    key.len() >= p.len() && key.subrange(0, p.len() as int) == p
}

/// Key under which the registration record of an identifier is stored.
pub open spec fn credential_key_of(id: Seq<char>) -> Seq<char> {
    seq!['c', 'r', 'e', 'd', ':'] + id
}

/// Key under which the encrypted bundle of an identifier is stored.
pub open spec fn bundle_key_of(id: Seq<char>) -> Seq<char> {
    seq!['b', 'u', 'n', 'd', 'l', 'e', ':'] + id
}

/// Key of the rate-limit entry of an identifier on an endpoint.
pub open spec fn rate_limit_key_of(id: Seq<char>, endpoint: Seq<char>) -> Seq<char> {
    seq!['r', 'a', 't', 'e', ':'] + id + seq![':'] + endpoint
}

fn digit_str(d: u64) -> (r: &'static str)
    requires
        d < 10,
    ensures
        r@ == seq![digit_char(d as nat)],
{
    proof {
        reveal_strlit("0");
        reveal_strlit("1");
        reveal_strlit("2");
        reveal_strlit("3");
        reveal_strlit("4");
        reveal_strlit("5");
        reveal_strlit("6");
        reveal_strlit("7");
        reveal_strlit("8");
        reveal_strlit("9");
    }
    if d == 0 {
        "0"
    } else if d == 1 {
        "1"
    } else if d == 2 {
        "2"
    } else if d == 3 {
        "3"
    } else if d == 4 {
        "4"
    } else if d == 5 {
        "5"
    } else if d == 6 {
        "6"
    } else if d == 7 {
        "7"
    } else if d == 8 {
        "8"
    } else {
        "9"
    }
}

/// Appends the decimal digits of `n`.
pub fn push_decimal(out: &mut String, n: u64)
    ensures
        final(out)@ == old(out)@ + decimal(n as nat),
    decreases n,
{
    if n >= 10 {
        push_decimal(out, n / 10);
    }
    out.append(digit_str(n % 10));
    proof {
        if n >= 10 {
            assert(decimal(n as nat) == decimal((n / 10) as nat).push(digit_char((n % 10) as nat)));
        }
    }
    assert(final(out)@ =~= old(out)@ + decimal(n as nat));
}

/// Builds the session token of a login started at `millis`.
pub fn state_key(id: &str, millis: u64, is_fake: bool) -> (r: String)
    ensures
        r@ == state_key_of(id@, millis as nat, is_fake),
{
    proof {
        reveal_strlit("state:");
        reveal_strlit(":");
        reveal_strlit(":f");
        reveal_strlit(":r");
    }
    let mut key = String::from_str("state:");
    key.append(id);
    key.append(":");
    push_decimal(&mut key, millis);
    if is_fake {
        key.append(":f");
    } else {
        key.append(":r");
    }
    assert(key@ =~= state_key_of(id@, millis as nat, is_fake));
    key
}

/// Reads the record tag off a session token.
pub fn is_fake_state_key(key: &str) -> (r: bool)
    ensures
        r == has_fake_tag(key@),
{
    let n = key.unicode_len();
    if n < 2 {
        return false;
    }
    key.get_char(n - 2) == ':' && key.get_char(n - 1) == 'f'
}

/// Whether a session token was issued for the given identifier.
pub fn state_key_belongs_to(key: &str, id: &str) -> (r: bool)
    ensures
        r == token_belongs_to(key@, id@),
{
    let n = key.unicode_len();
    let m = id.unicode_len();
    if n < m || n - m < 7 {
        return false;
    }
    let ghost p = state_prefix() + id@ + seq![':'];
    proof {
        reveal_strlit("state:");
    }
    let prefix = "state:";
    let mut i: usize = 0;
    while i < 6
        invariant
            n == key@.len(),
            m == id@.len(),
            n >= m + 7,
            p == state_prefix() + id@ + seq![':'],
            prefix@ == state_prefix(),
            i <= 6,
            forall|j: int| 0 <= j < i ==> key@[j] == p[j],
        decreases 6 - i,
    {
        assert(p[i as int] == prefix@[i as int]);
        if key.get_char(i) != prefix.get_char(i) {
            assert(key@.subrange(0, p.len() as int)[i as int] != p[i as int]);
            return false;
        }
        i += 1;
    }
    let mut k: usize = 0;
    while k < m
        invariant
            n == key@.len(),
            m == id@.len(),
            n >= m + 7,
            k <= m,
            p == state_prefix() + id@ + seq![':'],
            forall|j: int| 0 <= j < 6 + k ==> key@[j] == p[j],
        decreases m - k,
    {
        if key.get_char(6 + k) != id.get_char(k) {
            assert(key@.subrange(0, p.len() as int)[6 + k] != p[6 + k]);
            return false;
        }
        k += 1;
    }
    if key.get_char(6 + m) != ':' {
        assert(key@.subrange(0, p.len() as int)[6 + m] != p[6 + m]);
        return false;
    }
    assert(key@.subrange(0, p.len() as int) =~= p);
    true
}

fn prefixed(prefix: &str, id: &str) -> (r: String)
    ensures
        r@ == prefix@ + id@,
{
    let mut key = String::from_str(prefix);
    key.append(id);
    key
}

/// The store key of an identifier's registration record.
pub fn credential_key(id: &str) -> (r: String)
    ensures
        r@ == credential_key_of(id@),
{
    proof {
        reveal_strlit("cred:");
    }
    let r = prefixed("cred:", id);
    assert(r@ =~= credential_key_of(id@));
    r
}

/// The store key of an identifier's encrypted bundle.
pub fn bundle_key(id: &str) -> (r: String)
    ensures
        r@ == bundle_key_of(id@),
{
    proof {
        reveal_strlit("bundle:");
    }
    let r = prefixed("bundle:", id);
    assert(r@ =~= bundle_key_of(id@));
    r
}

/// The store key of the rate-limit entry of an identifier on an endpoint.
pub fn rate_limit_key(id: &str, endpoint: &str) -> (r: String)
    ensures
        r@ == rate_limit_key_of(id@, endpoint@),
{
    proof {
        reveal_strlit("rate:");
        reveal_strlit(":");
    }
    let mut key = prefixed("rate:", id);
    key.append(":");
    key.append(endpoint);
    assert(key@ =~= rate_limit_key_of(id@, endpoint@));
    key
}

/// The tag of a session token is the one it was built with.
pub proof fn lemma_state_key_tag(id: Seq<char>, millis: nat, is_fake: bool)
    ensures
        has_fake_tag(state_key_of(id, millis, is_fake)) == is_fake,
{
    let k = state_key_of(id, millis, is_fake);
    assert(k[k.len() - 1] == record_tag(is_fake));
    assert(k[k.len() - 2] == ':');
}

/// A session token belongs to the identifier it was built for.
pub proof fn lemma_state_key_owner(id: Seq<char>, millis: nat, is_fake: bool)
    ensures
        token_belongs_to(state_key_of(id, millis, is_fake), id),
{
    let k = state_key_of(id, millis, is_fake);
    let p = state_prefix() + id + seq![':'];
    assert(k.subrange(0, p.len() as int) =~= p);
}

/// Real and fake session tokens for one identifier and instant have the
/// same length: the tag is the only character in which they differ.
pub proof fn lemma_state_key_len_hides_tag(id: Seq<char>, millis: nat)
    ensures
        state_key_of(id, millis, true).len() == state_key_of(id, millis, false).len(),
{
}

} // verus!
