use vstd::prelude::*;

verus! {

/// The text that bs58 produces for a byte string, in the Bitcoin alphabet.
pub uninterp spec fn base58_of(bytes: Seq<u8>) -> Seq<char>;

/// A digit of the Bitcoin base58 alphabet: an ASCII letter or digit other than
/// `0`, `O`, `I` and `l`.
pub open spec fn is_base58_digit(c: char) -> bool {
    &&& (('1' <= c <= '9') || ('A' <= c <= 'Z') || ('a' <= c <= 'z'))
    &&& c != 'O' && c != 'I' && c != 'l'
}

pub open spec fn is_base58_text(s: Seq<char>) -> bool {
    forall|i: int| 0 <= i < s.len() ==> is_base58_digit(#[trigger] s[i])
}

/// Relies on `bs58::encode(..).into_string()`: the encoding of the bytes in the
/// default (Bitcoin) alphabet, so every character is a base58 digit.
#[verifier::external_body]
fn base58_encode(bytes: &Vec<u8>) -> (r: String)
    ensures
        r@ == base58_of(bytes@),
        is_base58_text(r@),
{
    bs58::encode(bytes).into_string()
}

pub open spec fn key_prefix() -> Seq<char> {
    "upgrade_assistant:"@
}

pub open spec fn default_namespace() -> Seq<char> {
    "_default_"@
}

/// The namespace as it appears in a storage key.
pub open spec fn namespace_text(ns: Option<Seq<char>>) -> Seq<char> {
    match ns {
        Some(s) => s,
        None => default_namespace(),
    }
}

/// The storage key for an origin whose base58 text is `encoded`.
pub open spec fn key_text(encoded: Seq<char>, ns: Option<Seq<char>>) -> Seq<char> {
    key_prefix() + encoded + seq![':'] + namespace_text(ns)
}

/// The storage key of an (origin, namespace) pair:
/// `upgrade_assistant:<base58 of origin>:<namespace, or _default_>`.
pub open spec fn storage_key(origin: Seq<u8>, ns: Option<Seq<char>>) -> Seq<char> {
    key_text(base58_of(origin), ns)
}

/// Derives the storage key under which the record of `(origin, namespace)` is kept.
pub fn create_storage_key(origin: &Vec<u8>, namespace: &Option<String>) -> (r: String)
    ensures
        r@ == storage_key(origin@, crate::types::ns_view(*namespace)),
        is_base58_text(base58_of(origin@)),
{
    let encoded = base58_encode(origin);
    let mut key = String::from_str("upgrade_assistant:");
    key.append(encoded.as_str());
    key.append(":");
    match namespace {
        Some(ns) => key.append(ns.as_str()),
        None => key.append("_default_"),
    }
    proof {
        reveal_strlit("upgrade_assistant:");
        reveal_strlit(":");
        reveal_strlit("_default_");
        assert(key@ =~= storage_key(origin@, crate::types::ns_view(*namespace)));
    }
    key
}

/// Two storage keys are equal only when the base58 texts of their origins are
/// equal and their namespaces read the same: no namespace string can reach
/// into another origin's keys.
pub proof fn lemma_key_text_injective(
    e1: Seq<char>,
    e2: Seq<char>,
    n1: Option<Seq<char>>,
    n2: Option<Seq<char>>,
)
    requires
        is_base58_text(e1),
        is_base58_text(e2),
        key_text(e1, n1) == key_text(e2, n2),
    ensures
        e1 == e2,
        namespace_text(n1) == namespace_text(n2),
{
    let p = key_prefix();
    let k1 = key_text(e1, n1);
    let k2 = key_text(e2, n2);
    let r1 = e1 + seq![':'] + namespace_text(n1);
    let r2 = e2 + seq![':'] + namespace_text(n2);
    assert(k1 =~= p + r1);
    assert(k2 =~= p + r2);
    assert(r1 =~= k1.subrange(p.len() as int, k1.len() as int));
    assert(r2 =~= k2.subrange(p.len() as int, k2.len() as int));
    if e1.len() < e2.len() {
        assert(r1[e1.len() as int] == ':');
        assert(r2[e1.len() as int] == e2[e1.len() as int]);
        assert(is_base58_digit(e2[e1.len() as int]));
    } else if e2.len() < e1.len() {
        assert(r2[e2.len() as int] == ':');
        assert(r1[e2.len() as int] == e1[e2.len() as int]);
        assert(is_base58_digit(e1[e2.len() as int]));
    }
    assert(e1.len() == e2.len());
    assert(e1 =~= r1.subrange(0, e1.len() as int));
    assert(e2 =~= r2.subrange(0, e2.len() as int));
    assert(namespace_text(n1) =~= r1.subrange(e1.len() as int + 1, r1.len() as int));
    assert(namespace_text(n2) =~= r2.subrange(e2.len() as int + 1, r2.len() as int));
}

/// Storage keys are deterministic, and equal keys come only from origins with
/// equal base58 texts and namespaces that read the same.
pub proof fn lemma_storage_key_injective(
    o1: Seq<u8>,
    o2: Seq<u8>,
    n1: Option<Seq<char>>,
    n2: Option<Seq<char>>,
)
    requires
        is_base58_text(base58_of(o1)),
        is_base58_text(base58_of(o2)),
    ensures
        o1 == o2 && n1 == n2 ==> storage_key(o1, n1) == storage_key(o2, n2),
        storage_key(o1, n1) == storage_key(o2, n2) ==> base58_of(o1) == base58_of(o2)
            && namespace_text(n1) == namespace_text(n2),
{
    if storage_key(o1, n1) == storage_key(o2, n2) {
        lemma_key_text_injective(base58_of(o1), base58_of(o2), n1, n2);
    }
}

} // verus!
