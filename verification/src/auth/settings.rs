//! What the environment says about authentication.

use crate::text::{decimal, parse_u64, same, texts, to_uppercase, trim, trimmed, uppercase};
use vstd::prelude::*;

verus! {

/// Where the list of tokens is to be had.
#[derive(Clone, Debug)]
pub enum TokenSource {
    /// The list itself.
    Inline(String),
    /// The path of a file that holds it.
    File(String),
    /// There is none.
    Nowhere,
}

/// Where to get the list of tokens: what is set outright goes before a file.
pub fn token_source(json: Option<String>, file: Option<String>) -> (r: TokenSource)
    ensures
        r == match (json, file) {
            (Some(text), _) => TokenSource::Inline(text),
            (None, Some(path)) => TokenSource::File(path),
            (None, None) => TokenSource::Nowhere,
        },
{
    match json {
        Some(text) => TokenSource::Inline(text),
        None => {
            match file {
                Some(path) => TokenSource::File(path),
                None => TokenSource::Nowhere,
            }
        },
    }
}

/// How a signed token may be signed.
#[derive(Clone, Copy, Debug, PartialEq, Eq, Structural)]
pub enum JwtAlgorithm {
    RS256,
    ES256,
    /// With a shared secret. It must be asked for.
    HS256,
}

/// The algorithm of a name in upper case.
pub open spec fn named(name: Seq<char>) -> Option<JwtAlgorithm> {
    if name == "RS256"@ {
        Some(JwtAlgorithm::RS256)
    } else if name == "ES256"@ {
        Some(JwtAlgorithm::ES256)
    } else if name == "HS256"@ {
        Some(JwtAlgorithm::HS256)
    } else {
        None
    }
}

/// The algorithm of a name in upper case.
pub fn algorithm_named(name: &str) -> (r: Option<JwtAlgorithm>)
    ensures
        r == named(name@),
{
    if same(name, "RS256") {
        Some(JwtAlgorithm::RS256)
    } else if same(name, "ES256") {
        Some(JwtAlgorithm::ES256)
    } else if same(name, "HS256") {
        Some(JwtAlgorithm::HS256)
    } else {
        None
    }
}

/// The parts of a text between its commas.
pub open spec fn parts(s: Seq<char>) -> Seq<Seq<char>>
    decreases s.len(),
{
    if s.len() == 0 {
        seq![seq![]]
    } else {
        let before = parts(s.drop_last());
        if s.last() == ',' {
            before.push(seq![])
        } else {
            before.update(before.len() - 1, before.last().push(s.last()))
        }
    }
}

/// The algorithms that the parts name, in their order. A part that names none is
/// passed over.
pub open spec fn listed(parts: Seq<Seq<char>>) -> Seq<JwtAlgorithm>
    decreases parts.len(),
{
    if parts.len() == 0 {
        seq![]
    } else {
        let before = listed(parts.drop_last());
        match named(uppercase(trim(parts.last()))) {
            Some(algorithm) => before.push(algorithm),
            None => before,
        }
    }
}

/// The names among the parts that name no algorithm, in upper case and in their
/// order.
pub open spec fn unknown_among(parts: Seq<Seq<char>>) -> Seq<Seq<char>>
    decreases parts.len(),
{
    if parts.len() == 0 {
        seq![]
    } else {
        let before = unknown_among(parts.drop_last());
        let name = uppercase(trim(parts.last()));
        match named(name) {
            Some(_) => before,
            None => before.push(name),
        }
    }
}

/// The algorithms to accept where none is set, or none of those set is known.
pub open spec fn default_algorithms() -> Seq<JwtAlgorithm> {
    seq![JwtAlgorithm::RS256, JwtAlgorithm::ES256]
}

/// The algorithms to accept, given those that are listed.
pub open spec fn accepted(listed: Seq<JwtAlgorithm>) -> Seq<JwtAlgorithm> {
    if listed.len() == 0 {
        default_algorithms()
    } else {
        listed
    }
}

/// The algorithms to accept, by the setting.
pub open spec fn algorithms(raw: Option<String>) -> Seq<JwtAlgorithm> {
    match raw {
        Some(text) => accepted(listed(parts(text@))),
        None => default_algorithms(),
    }
}

/// The parts of a text between its commas.
pub fn split_commas(text: &str) -> (r: Vec<String>)
    ensures
        texts(r@) == parts(text@),
{
    let mut r: Vec<String> = Vec::new();
    let mut current: String = String::new();
    assert(texts(r@.push(current)) =~= parts(text@.take(0)));
    for c in iter: text.chars()
        invariant
            iter.seq() == text@,
            texts(r@).push(current@) == parts(text@.take(iter.index())),
    {
        let ghost i = iter.index();
        let ghost before = texts(r@).push(current@);
        proof {
            assert(text@.take(i + 1).drop_last() =~= text@.take(i));
        }
        if c == ',' {
            r.push(current);
            current = String::new();
            assert(texts(r@).push(current@) =~= before.push(seq![]));
        } else {
            current.push(c);
            assert(texts(r@).push(current@) =~= before.update(
                before.len() - 1,
                before.last().push(c),
            ));
        }
    }
    assert(text@.take(text@.len() as int) =~= text@);
    let ghost before = texts(r@).push(current@);
    r.push(current);
    assert(texts(r@) =~= before);
    r
}

/// The algorithms to accept, given those that are listed.
pub fn accept(listed: Vec<JwtAlgorithm>) -> (r: Vec<JwtAlgorithm>)
    ensures
        r@ == accepted(listed@),
{
    if listed.len() == 0 {
        let r: Vec<JwtAlgorithm> = vec![JwtAlgorithm::RS256, JwtAlgorithm::ES256];
        assert(r@ =~= default_algorithms());
        r
    } else {
        listed
    }
}

/// Reads which algorithms to accept.
pub fn read_algorithms(raw: &Option<String>) -> (r: Vec<JwtAlgorithm>)
    ensures
        r@ == algorithms(*raw),
{
    let text: &str = match raw {
        Some(text) => text.as_str(),
        None => return accept(Vec::new()),
    };
    let names: Vec<String> = split_commas(text);
    let ghost all = texts(names@);
    let mut found: Vec<JwtAlgorithm> = Vec::new();
    let mut i: usize = 0;
    assert(all.take(0) =~= seq![]);
    while i < names.len()
        invariant
            i <= names@.len(),
            all == texts(names@),
            found@ == listed(all.take(i as int)),
        decreases names@.len() - i,
    {
        assert(all.take(i + 1).drop_last() =~= all.take(i as int));
        assert(all.take(i + 1).last() == names@[i as int]@);
        let name: String = to_uppercase(trimmed(names[i].as_str()));
        if let Some(algorithm) = algorithm_named(name.as_str()) {
            found.push(algorithm);
        }
        i = i + 1;
    }
    assert(all.take(i as int) =~= all);
    accept(found)
}

/// What to warn of: the names in the setting that name no algorithm, in upper
/// case.
pub fn unknown_algorithms(raw: &Option<String>) -> (r: Vec<String>)
    ensures
        texts(r@) == match *raw {
            Some(text) => unknown_among(parts(text@)),
            None => seq![],
        },
{
    let mut unknown: Vec<String> = Vec::new();
    assert(texts(unknown@) =~= seq![]);
    let text: &str = match raw {
        Some(text) => text.as_str(),
        None => return unknown,
    };
    let names: Vec<String> = split_commas(text);
    let ghost all = texts(names@);
    let mut i: usize = 0;
    assert(all.take(0) =~= seq![]);
    while i < names.len()
        invariant
            i <= names@.len(),
            all == texts(names@),
            texts(unknown@) == unknown_among(all.take(i as int)),
        decreases names@.len() - i,
    {
        assert(all.take(i + 1).drop_last() =~= all.take(i as int));
        assert(all.take(i + 1).last() == names@[i as int]@);
        let name: String = to_uppercase(trimmed(names[i].as_str()));
        if algorithm_named(name.as_str()).is_none() {
            let ghost before = texts(unknown@);
            let ghost last = name@;
            unknown.push(name);
            assert(texts(unknown@) =~= before.push(last));
        }
        i = i + 1;
    }
    assert(all.take(i as int) =~= all);
    unknown
}

/// How long a set of keys is kept where nothing is set, in seconds.
pub const DEFAULT_JWKS_TTL_SECS: u64 = 300;

/// Where the keys that verify signed tokens are to be had.
#[derive(Clone, Debug)]
pub enum JwksSource {
    /// The set of keys itself.
    Inline(String),
    /// Where to fetch it, and for how many seconds to keep it.
    Url(String, u64),
}

/// What the environment says about signed tokens.
#[derive(Clone, Debug)]
pub struct RawJwtEnv {
    pub issuer: Option<String>,
    pub audience: Option<String>,
    pub jwks_ttl_secs: Option<String>,
    pub algorithms: Option<String>,
    pub jwks_json: Option<String>,
    pub jwks_url: Option<String>,
}

/// How to verify signed tokens.
#[derive(Clone, Debug)]
pub struct JwtPlan {
    pub issuer: String,
    pub audience: String,
    pub algorithms: Vec<JwtAlgorithm>,
    pub source: JwksSource,
}

/// For how many seconds to keep a set of keys.
pub open spec fn jwks_ttl(raw: Option<String>) -> int {
    match raw {
        Some(text) => match decimal(text@) {
            Some(n) => if n <= u64::MAX {
                n as int
            } else {
                DEFAULT_JWKS_TTL_SECS as int
            },
            None => DEFAULT_JWKS_TTL_SECS as int,
        },
        None => DEFAULT_JWKS_TTL_SECS as int,
    }
}

/// Whether the environment asks for authentication: it names the issuer of signed
/// tokens, or says where the list of tokens is to be had.
pub open spec fn asks_for_auth(raw: RawJwtEnv, tokens: TokenSource) -> bool {
    raw.issuer is Some || !(tokens is Nowhere)
}

/// Whether the environment asks for authentication. It does even where no token
/// can then be verified, for want of keys or of tokens in the list.
pub fn auth_asked_for(raw: &RawJwtEnv, tokens: &TokenSource) -> (r: bool)
    ensures
        r == asks_for_auth(*raw, *tokens),
{
    let listed: bool = match tokens {
        TokenSource::Nowhere => false,
        _ => true,
    };
    raw.issuer.is_some() || listed
}

/// Whether the environment says how to verify signed tokens: it names their
/// issuer, and keys or where to fetch them.
pub open spec fn verifies_tokens(raw: RawJwtEnv) -> bool {
    raw.issuer is Some && (raw.jwks_json is Some || raw.jwks_url is Some)
}

/// Reads how to verify signed tokens, where the environment says it. Keys that
/// are set outright go before a place to fetch them.
pub fn plan_jwt(raw: RawJwtEnv) -> (r: Option<JwtPlan>)
    ensures
        r is Some <==> verifies_tokens(raw),
        r is Some ==> {
            let plan = r->0;
            &&& plan.issuer@ == raw.issuer->0@
            &&& plan.audience@ == match raw.audience {
                Some(audience) => audience@,
                None => "macp-runtime"@,
            }
            &&& plan.algorithms@ == algorithms(raw.algorithms)
            &&& match raw.jwks_json {
                Some(json) => plan.source matches JwksSource::Inline(text) && text@ == json@,
                None => plan.source matches JwksSource::Url(url, ttl) && url@ == raw.jwks_url->0@
                    && ttl == jwks_ttl(raw.jwks_ttl_secs),
            }
        },
{
    let algorithms: Vec<JwtAlgorithm> = read_algorithms(&raw.algorithms);
    let ttl: u64 = match &raw.jwks_ttl_secs {
        Some(text) => {
            match parse_u64(text.as_str()) {
                Some(n) => n,
                None => DEFAULT_JWKS_TTL_SECS,
            }
        },
        None => DEFAULT_JWKS_TTL_SECS,
    };
    let issuer: String = match raw.issuer {
        Some(issuer) => issuer,
        None => return None,
    };
    let source: JwksSource = match raw.jwks_json {
        Some(json) => JwksSource::Inline(json),
        None => {
            match raw.jwks_url {
                Some(url) => JwksSource::Url(url, ttl),
                None => return None,
            }
        },
    };
    let audience: String = match raw.audience {
        Some(audience) => audience,
        None => "macp-runtime".to_owned(),
    };
    Some(JwtPlan { issuer, audience, algorithms, source })
}

/// The resolvers that settle who a caller is.
#[derive(Clone, Copy, Debug, PartialEq, Eq, Structural)]
pub enum ResolverKind {
    /// Verifies signed tokens.
    Jwt,
    /// Looks tokens up.
    StaticBearer,
}

/// The resolvers in the order in which they are asked.
pub open spec fn order(verifies_tokens: bool, knows_tokens: bool) -> Seq<ResolverKind> {
    if verifies_tokens && knows_tokens {
        seq![ResolverKind::Jwt, ResolverKind::StaticBearer]
    } else if verifies_tokens {
        seq![ResolverKind::Jwt]
    } else if knows_tokens {
        seq![ResolverKind::StaticBearer]
    } else {
        seq![]
    }
}

/// The resolvers in the order in which they are to be asked.
pub fn resolver_order(verifies_tokens: bool, knows_tokens: bool) -> (r: Vec<ResolverKind>)
    ensures
        r@ == order(verifies_tokens, knows_tokens),
{
    let mut r: Vec<ResolverKind> = Vec::new();
    if verifies_tokens {
        r.push(ResolverKind::Jwt);
    }
    if knows_tokens {
        r.push(ResolverKind::StaticBearer);
    }
    assert(r@ =~= order(verifies_tokens, knows_tokens));
    r
}

/// There is always an algorithm to accept, and a shared secret is accepted only
/// where it was asked for.
pub proof fn shared_secrets_must_be_asked_for(raw: Option<String>)
    ensures
        algorithms(raw).len() > 0,
        algorithms(raw).contains(JwtAlgorithm::HS256) ==> exists|i: int|
            raw is Some && 0 <= i < parts(raw->0@).len() && uppercase(
                trim(#[trigger] parts(raw->0@)[i]),
            ) == "HS256"@,
{
    if raw is Some {
        let all = parts(raw->0@);
        if listed(all).len() > 0 && listed(all).contains(JwtAlgorithm::HS256) {
            let k = listed(all).index_of(JwtAlgorithm::HS256);
            let i = listed_from(all, k);
        }
    }
}

proof fn listed_from(all: Seq<Seq<char>>, k: int) -> (i: int)
    requires
        0 <= k < listed(all).len(),
    ensures
        0 <= i < all.len(),
        named(uppercase(trim(all[i]))) == Some(listed(all)[k]),
    decreases all.len(),
{
    let before = listed(all.drop_last());
    if k < before.len() {
        listed_from(all.drop_last(), k)
    } else {
        all.len() - 1
    }
}

/// The parts with commas between them.
pub open spec fn with_commas(list: Seq<Seq<char>>) -> Seq<char>
    decreases list.len(),
{
    if list.len() == 0 {
        seq![]
    } else if list.len() == 1 {
        list[0]
    } else {
        with_commas(list.drop_last()) + seq![','] + list.last()
    }
}

proof fn longer_last_part(list: Seq<Seq<char>>, c: char)
    requires
        list.len() > 0,
    ensures
        with_commas(list.update(list.len() - 1, list.last().push(c))) == with_commas(list).push(c),
{
    let longer = list.update(list.len() - 1, list.last().push(c));
    assert(longer.drop_last() =~= list.drop_last());
    assert(with_commas(longer) =~= with_commas(list).push(c));
}

/// The parts of a text are what stands between its commas: put together with commas
/// they are the text again, and none of them holds a comma.
pub proof fn parts_make_up_the_text(s: Seq<char>)
    ensures
        parts(s).len() > 0,
        with_commas(parts(s)) == s,
        forall|i: int| 0 <= i < parts(s).len() ==> !(#[trigger] parts(s)[i]).contains(','),
    decreases s.len(),
{
    if s.len() == 0 {
        assert(parts(s)[0] =~= s);
    } else {
        let init = s.drop_last();
        let before = parts(init);
        parts_make_up_the_text(init);
        assert(s =~= init.push(s.last()));
        if s.last() == ',' {
            let list = before.push(seq![]);
            assert(list.drop_last() =~= before);
            assert(with_commas(list) =~= init + seq![',']);
            assert forall|i: int| 0 <= i < list.len() implies !(#[trigger] list[i]).contains(
                ',',
            ) by {
                if i < before.len() {
                    assert(list[i] == before[i]);
                }
            }
        } else {
            longer_last_part(before, s.last());
            let list = parts(s);
            assert forall|i: int| 0 <= i < list.len() implies !(#[trigger] list[i]).contains(
                ',',
            ) by {
                assert(!before[i].contains(','));
                if i == before.len() - 1 && list[i].contains(',') {
                    let k = list[i].index_of(',');
                    assert(list[i][k] == ',');
                    if k < before[i].len() {
                        assert(before[i][k] == ',');
                    }
                }
            }
        }
    }
}

/// The algorithms that are listed are those that the parts name, one for each part
/// that names one, in the same order; the rest is passed over.
pub proof fn each_part_counts_for_itself(a: Seq<Seq<char>>, b: Seq<Seq<char>>)
    ensures
        listed(a + b) == listed(a) + listed(b),
        unknown_among(a + b) == unknown_among(a) + unknown_among(b),
        listed(a).len() + unknown_among(a).len() == a.len(),
    decreases b.len(), a.len(),
{
    if b.len() == 0 {
        assert(a + b =~= a);
        assert(listed(a) + listed(b) =~= listed(a));
        assert(unknown_among(a) + unknown_among(b) =~= unknown_among(a));
        if a.len() > 0 {
            each_part_counts_for_itself(a.drop_last(), b);
        }
    } else {
        assert((a + b).drop_last() =~= a + b.drop_last());
        each_part_counts_for_itself(a, b.drop_last());
        assert(listed(a + b) =~= listed(a) + listed(b));
        assert(unknown_among(a + b) =~= unknown_among(a) + unknown_among(b));
    }
}

/// A part names an algorithm whatever space is around it and in whatever case.
pub proof fn names_are_read_without_regard_to_case(part: Seq<char>)
    ensures
        uppercase(trim(part)) == "RS256"@ ==> listed(seq![part]) == seq![JwtAlgorithm::RS256],
        uppercase(trim(part)) == "ES256"@ ==> listed(seq![part]) == seq![JwtAlgorithm::ES256],
        uppercase(trim(part)) == "HS256"@ ==> listed(seq![part]) == seq![JwtAlgorithm::HS256],
        uppercase(trim(part)) != "RS256"@ && uppercase(trim(part)) != "ES256"@ && uppercase(
            trim(part),
        ) != "HS256"@ ==> listed(seq![part]).len() == 0,
{
    reveal_strlit("RS256");
    reveal_strlit("ES256");
    reveal_strlit("HS256");
    assert("RS256"@[0] == 'R');
    assert("ES256"@[0] == 'E');
    assert("HS256"@[0] == 'H');
    let one = seq![part];
    assert(one.drop_last() =~= seq![]);
    assert(listed(one.drop_last()) =~= seq![]);
    assert(one.last() == part);
    if named(uppercase(trim(part))) is Some {
        assert(listed(one) =~= seq![named(uppercase(trim(part)))->0]);
    }
}

/// Where the setting names an algorithm, those that it names are accepted and no
/// others; where it names none, or is missing, the two with keys of two halves are.
pub proof fn named_algorithms_are_accepted(raw: Option<String>)
    ensures
        raw is Some && listed(parts(raw->0@)).len() > 0 ==> algorithms(raw) == listed(
            parts(raw->0@),
        ),
        raw is None || listed(parts(raw->0@)).len() == 0 ==> algorithms(raw) == seq![
            JwtAlgorithm::RS256,
            JwtAlgorithm::ES256,
        ],
{
}

/// A set of keys is kept for as many seconds as the setting writes, and for five
/// minutes where it writes none.
pub proof fn keys_are_kept_as_long_as_set(raw: Option<String>)
    ensures
        raw is Some && decimal(raw->0@) is Some && decimal(raw->0@)->0 <= u64::MAX
            ==> jwks_ttl(raw) == decimal(raw->0@)->0,
        raw is None || decimal(raw->0@) is None || decimal(raw->0@)->0 > u64::MAX ==> jwks_ttl(raw)
            == 5 * 60,
{
}

/// Signed tokens are verified before others are looked up, and each resolver is
/// there exactly where it is called for.
pub proof fn resolvers_stand_in_order(verifies_tokens: bool, knows_tokens: bool)
    ensures
        order(verifies_tokens, knows_tokens).contains(ResolverKind::Jwt) <==> verifies_tokens,
        order(verifies_tokens, knows_tokens).contains(ResolverKind::StaticBearer) <==> knows_tokens,
        order(verifies_tokens, knows_tokens).len() <= 2,
        verifies_tokens ==> order(verifies_tokens, knows_tokens)[0] == ResolverKind::Jwt,
        order(verifies_tokens, knows_tokens).no_duplicates(),
{
    let kinds = order(verifies_tokens, knows_tokens);
    if verifies_tokens {
        assert(kinds[0] == ResolverKind::Jwt);
    }
    if knows_tokens {
        assert(kinds[kinds.len() - 1] == ResolverKind::StaticBearer);
    }
}

} // verus!
