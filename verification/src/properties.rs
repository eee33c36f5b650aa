//! The Gradle wrapper's properties file: reading it as key/value pairs,
//! setting the distribution address, and writing it back. The properties
//! format itself is handled by a trusted library; the update of the pairs
//! is verified exactly.

use vstd::prelude::*;

use crate::text::str_eq;

verus! {

/// How handling a properties file can fail.
#[derive(Debug)]
pub enum PropsError {
    /// The file's text is no properties file.
    Parse(String),
    /// The updated pairs could not be written out.
    Serialize,
}

/// What the properties grammar makes of a file's text: its key/value
/// binding, or nothing when the text does not parse.
pub uninterp spec fn props_parse(content: Seq<char>) -> Option<Map<Seq<char>, Seq<char>>>;

/// Whether a pair list carries exactly the bindings of `m`, each key
/// once, in some order.
pub open spec fn pairs_match(pairs: Seq<(Seq<char>, Seq<char>)>, m: Map<Seq<char>, Seq<char>>)
    -> bool {
    &&& (forall|i: int|
        0 <= i < pairs.len() ==> m.dom().contains(#[trigger] pairs[i].0) && m[pairs[i].0]
            == pairs[i].1)
    &&& (forall|i: int, j: int|
        0 <= i < j < pairs.len() ==> #[trigger] pairs[i].0 != #[trigger] pairs[j].0)
    &&& (forall|k: Seq<char>|
        m.dom().contains(k) ==> exists|i: int| 0 <= i < pairs.len() && #[trigger] pairs[i].0 == k)
}

/// Relies on `java_properties::read` for the properties grammar; the
/// binding read is a function of the text alone, though the order the
/// pairs come out in is not.
#[verifier::external_body]
fn parse_properties(content: &str) -> (r: Result<Vec<(String, String)>, PropsError>)
    ensures
        match r {
            Ok(pairs) => props_parse(content@) matches Some(m) && pairs_match(
                pairs.deep_view(),
                m,
            ),
            Err(_) => props_parse(content@) is None,
        },
{
    match java_properties::read(content.as_bytes()) {
        Ok(map) => Ok(map.into_iter().collect()),
        Err(e) => Err(PropsError::Parse(e.to_string())),
    }
}

/// Relies on `java_properties::write` to render the pairs as a properties
/// file; the order of the lines is not promised.
#[verifier::external_body]
fn serialize_properties(pairs: &Vec<(String, String)>) -> (r: Result<String, PropsError>)
    ensures
        r is Err ==> r matches Err(PropsError::Serialize),
{
    let map: std::collections::HashMap<String, String> = pairs.iter().cloned().collect();
    let mut buf: Vec<u8> = Vec::new();
    if java_properties::write(&mut buf, &map).is_err() {
        return Err(PropsError::Serialize);
    }
    match String::from_utf8(buf) {
        Ok(s) => Ok(s),
        Err(_) => Err(PropsError::Serialize),
    }
}

/// The pairs with `key` bound to `value`: an existing binding is replaced
/// in place, a new one goes at the end.
pub open spec fn spec_upsert(
    pairs: Seq<(Seq<char>, Seq<char>)>,
    key: Seq<char>,
    value: Seq<char>,
) -> Seq<(Seq<char>, Seq<char>)>
    decreases pairs.len(),
{
    if pairs.len() == 0 {
        seq![(key, value)]
    } else if pairs[0].0 == key {
        seq![(key, value)] + pairs.drop_first()
    } else {
        seq![pairs[0]] + spec_upsert(pairs.drop_first(), key, value)
    }
}

/// Binds `key` to `value` in the pair list, replacing an existing binding
/// in place or appending a new one.
pub fn set_property(pairs: &mut Vec<(String, String)>, key: &str, value: &str)
    ensures
        final(pairs).deep_view() == spec_upsert(old(pairs).deep_view(), key@, value@),
    decreases old(pairs)@.len(),
{
    let ghost before = pairs.deep_view();
    let n = pairs.len();
    let mut i: usize = 0;
    while i < n
        invariant
            0 <= i <= n,
            n == pairs@.len(),
            before == pairs.deep_view(),
            before == old(pairs).deep_view(),
            forall|k: int| 0 <= k < i ==> #[trigger] before[k].0 != key@,
        decreases n - i,
    {
        if str_eq(pairs[i].0.as_str(), key) {
            pairs[i].1 = value.to_owned();
            proof {
                lemma_upsert_at(before, key@, value@, i as int);
                assert(pairs.deep_view() =~= before.update(
                    i as int,
                    (before[i as int].0, value@),
                ));
                assert(pairs.deep_view() == spec_upsert(before, key@, value@));
            }
            return;
        }
        i = i + 1;
    }
    pairs.push((key.to_owned(), value.to_owned()));
    proof {
        lemma_upsert_absent(before, key@, value@);
        assert(pairs.deep_view() =~= before.push((key@, value@)));
        assert(pairs.deep_view() == spec_upsert(before, key@, value@));
    }
}

/// When the key first occurs at `i`, the upsert is an update there.
proof fn lemma_upsert_at(pairs: Seq<(Seq<char>, Seq<char>)>, key: Seq<char>, value: Seq<char>, i: int)
    requires
        0 <= i < pairs.len(),
        forall|k: int| 0 <= k < i ==> #[trigger] pairs[k].0 != key,
        pairs[i].0 == key,
    ensures
        spec_upsert(pairs, key, value) =~= pairs.update(i, (key, value)),
    decreases pairs.len(),
{
    if i == 0 {
        assert(spec_upsert(pairs, key, value) == seq![(key, value)] + pairs.drop_first());
        assert(seq![(key, value)] + pairs.drop_first() =~= pairs.update(0, (key, value)));
    } else {
        assert(pairs[0].0 != key);
        assert forall|k: int| 0 <= k < i - 1 implies #[trigger] pairs.drop_first()[k].0 != key by {
            assert(pairs.drop_first()[k] == pairs[k + 1]);
        }
        assert(pairs.drop_first()[i - 1] == pairs[i]);
        lemma_upsert_at(pairs.drop_first(), key, value, i - 1);
        assert(seq![pairs[0]] + pairs.drop_first().update(i - 1, (key, value)) =~= pairs.update(
            i,
            (key, value),
        ));
    }
}

/// When the key occurs nowhere, the upsert is an append.
proof fn lemma_upsert_absent(pairs: Seq<(Seq<char>, Seq<char>)>, key: Seq<char>, value: Seq<char>)
    requires
        forall|k: int| 0 <= k < pairs.len() ==> #[trigger] pairs[k].0 != key,
    ensures
        spec_upsert(pairs, key, value) =~= pairs.push((key, value)),
    decreases pairs.len(),
{
    if pairs.len() > 0 {
        assert forall|k: int| 0 <= k < pairs.drop_first().len() implies #[trigger] pairs.drop_first()[k].0
            != key by {
            assert(pairs.drop_first()[k] == pairs[k + 1]);
        }
        lemma_upsert_absent(pairs.drop_first(), key, value);
        assert(seq![pairs[0]] + pairs.drop_first().push((key, value)) =~= pairs.push(
            (key, value),
        ));
    }
}

/// Reads a properties file's pairs; an absent file counts as empty, as
/// the wrapper file need not exist yet.
pub fn read_properties(content: &Option<String>) -> (r: Result<Vec<(String, String)>, PropsError>)
    ensures
        match r {
            Ok(pairs) => match content {
                Some(c) => props_parse(c@) matches Some(m) && pairs_match(pairs.deep_view(), m),
                None => pairs.deep_view() == Seq::<(Seq<char>, Seq<char>)>::empty(),
            },
            Err(_) => content matches Some(c) && props_parse(c@) is None,
        },
{
    match content {
        Some(c) => parse_properties(c.as_str()),
        None => {
            let out: Vec<(String, String)> = Vec::new();
            proof {
                assert(out.deep_view() =~= Seq::<(Seq<char>, Seq<char>)>::empty());
            }
            Ok(out)
        },
    }
}

/// Sets the wrapper's distribution address in the properties file text:
/// an absent file counts as empty, the `distributionUrl` binding is
/// replaced or added, and the updated file text is handed back.
pub fn apply_gradle_wrapper_properties(existing: &Option<String>, distribution_url: &str) -> (r:
    Result<String, PropsError>)
    ensures
        r is Err ==> (existing matches Some(c) && props_parse(c@) is None) || r
            matches Err(PropsError::Serialize),
{
    let mut pairs = match read_properties(existing) {
        Ok(p) => p,
        Err(e) => {
            return Err(e);
        },
    };
    set_property(&mut pairs, "distributionUrl", distribution_url);
    serialize_properties(&pairs)
}

} // verus!
