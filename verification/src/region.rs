//! The region that an endpoint lies in.
use crate::outside;
use crate::pattern;
use crate::text;
use vstd::prelude::*;
use vstd::string::*;

verus! {

/// Whether `s` names a region: two letters, a hyphen, and at least one more letter, digit or hyphen.
pub open spec fn is_region(s: Seq<char>) -> bool {
    &&& s.len() > 3
    &&& 'a' <= s[0] && s[0] <= 'z'
    &&& 'a' <= s[1] && s[1] <= 'z'
    &&& s[2] == '-'
    &&& forall|i: int|
        3 <= i < s.len() ==> 'a' <= #[trigger] s[i] && s[i] <= 'z' || '0' <= s[i] && s[i] <= '9'
            || s[i] == '-'
}

/// The part of `host` that names its region, for a host `oss-`, region, `.aliyuncs.com`, with
/// `-internal` behind the region or not, in whatever case. What can be read both ways is read as an
/// internal host.
pub open spec fn region_group(host: Seq<char>) -> Option<Seq<char>> {
    let name = text::folded(host);
    let inner = host.subrange(4, host.len() - 13);
    let outer = inner.take(inner.len() - 9);
    if host.len() < 17 || !"oss-"@.is_prefix_of(name) || !".aliyuncs.com"@.is_suffix_of(name) {
        None
    } else if "-internal"@.is_suffix_of(text::folded(inner)) && is_region(text::folded(outer)) {
        Some(outer)
    } else if is_region(text::folded(inner)) {
        Some(inner)
    } else {
        None
    }
}

/// The region of an endpoint, in lower case.
pub open spec fn region_of(endpoint: Seq<char>) -> Option<Seq<char>> {
    match region_group(text::trimmed(endpoint)) {
        Some(group) => Some(text::lowered(group)),
        None => None,
    }
}

/// The region of an endpoint. Signing a request in version 4 needs it, and only the endpoint is
/// known. `None` where the endpoint does not tell, as with a domain of the user's own or the one for
/// accelerated transfer: such requests are signed in version 1.
pub fn region_from_endpoint(endpoint: &str) -> (res: Option<String>)
    ensures
        outside::optional_text(res) == region_of(endpoint@),
{
    match outside::first_group(pattern::REGION, text::trim(endpoint)) {
        Some(group) => Some(text::lowercase(group.as_str())),
        None => None,
    }
}

/// The host of a region, for access from outside.
pub open spec fn public_host(region: Seq<char>) -> Seq<char> {
    "oss-"@ + region + ".aliyuncs.com"@
}

/// The host of a region, for access from inside its network.
pub open spec fn internal_host(region: Seq<char>) -> Seq<char> {
    "oss-"@ + region + "-internal"@ + ".aliyuncs.com"@
}

/// Whether `region` looks like another region with `-internal` behind it.
pub open spec fn looks_internal(region: Seq<char>) -> bool {
    "-internal"@.is_suffix_of(region) && is_region(region.take(region.len() - 9))
}

proof fn lemma_region_is_lower(region: Seq<char>)
    requires
        is_region(region),
    ensures
        text::lowered(region) == region,
        text::folded(region) == region,
{
    assert forall|i: int| 0 <= i < region.len() implies text::fold(#[trigger] region[i])
        == region[i] && text::lower(region[i]) == region[i] by {
    }
    assert(text::lowered(region) =~= region);
    assert(text::folded(region) =~= region);
}

proof fn lemma_host_ends(host: Seq<char>)
    requires
        "oss-"@.is_prefix_of(host),
        ".aliyuncs.com"@.is_suffix_of(host),
    ensures
        text::trimmed(host) == host,
{
    reveal_strlit("oss-");
    reveal_strlit(".aliyuncs.com");
    assert(host.subrange(0, 4)[0] == "oss-"@[0]);
    assert(host.subrange(host.len() - 13, host.len() as int)[12] == ".aliyuncs.com"@[12]);
    text::lemma_stripped_alone(host, text::Margin::White);
}

/// The public host of a region tells the region, unless the region itself looks like another one
/// with `-internal` behind it.
pub proof fn lemma_public_host_tells_region(region: Seq<char>)
    requires
        is_region(region),
        !looks_internal(region),
    ensures
        region_of(public_host(region)) == Some(region),
{
    reveal_strlit("oss-");
    reveal_strlit(".aliyuncs.com");
    let host = public_host(region);
    lemma_region_is_lower(region);
    let name = text::folded(host);
    assert(name =~= host);
    assert(host.subrange(0, 4) =~= "oss-"@);
    assert(host.subrange(host.len() - 13, host.len() as int) =~= ".aliyuncs.com"@);
    lemma_host_ends(host);
    let inner = host.subrange(4, host.len() - 13);
    assert(inner =~= region);
    if "-internal"@.is_suffix_of(region) {
        reveal_strlit("-internal");
        lemma_folded_take(region, region.len() - 9);
    }
}

proof fn lemma_folded_take(s: Seq<char>, n: int)
    requires
        text::folded(s) == s,
        0 <= n <= s.len(),
    ensures
        text::folded(s.take(n)) == s.take(n),
{
    assert forall|i: int| 0 <= i < n implies text::fold(s.take(n)[i]) == s.take(n)[i] by {
        assert(text::folded(s)[i] == text::fold(s[i]));
    }
    assert(text::folded(s.take(n)) =~= s.take(n));
}

/// The internal host of a region tells the region.
pub proof fn lemma_internal_host_tells_region(region: Seq<char>)
    requires
        is_region(region),
    ensures
        region_of(internal_host(region)) == Some(region),
{
    reveal_strlit("oss-");
    reveal_strlit("-internal");
    reveal_strlit(".aliyuncs.com");
    let host = internal_host(region);
    lemma_region_is_lower(region);
    let name = text::folded(host);
    assert(name =~= host);
    assert(host.subrange(0, 4) =~= "oss-"@);
    assert(host.subrange(host.len() - 13, host.len() as int) =~= ".aliyuncs.com"@);
    lemma_host_ends(host);
    let inner = host.subrange(4, host.len() - 13);
    assert(inner =~= region + "-internal"@);
    assert(text::folded(inner) =~= inner);
    assert(inner.subrange(inner.len() - 9, inner.len() as int) =~= "-internal"@);
    assert(inner.take(inner.len() - 9) =~= region);
}

/// White space around an endpoint does not matter.
pub proof fn lemma_region_ignores_margin(endpoint: Seq<char>)
    ensures
        region_of(text::trimmed(endpoint)) == region_of(endpoint),
{
    text::lemma_stripped_ends(endpoint, text::Margin::White);
}

/// Only a host of the service tells a region: any other endpoint gives none.
pub proof fn lemma_other_hosts_tell_nothing(endpoint: Seq<char>)
    requires
        !".aliyuncs.com"@.is_suffix_of(text::folded(text::trimmed(endpoint))) || !"oss-"@.is_prefix_of(
            text::folded(text::trimmed(endpoint)),
        ),
    ensures
        region_of(endpoint) is None,
{
}

/// The name of a region, as an endpoint tells it, is made of letters, digits and hyphens only.
pub proof fn lemma_region_is_plain(endpoint: Seq<char>)
    requires
        region_of(endpoint) is Some,
    ensures
        forall|i: int|
            0 <= i < region_of(endpoint)->0.len() ==> {
                let c = #[trigger] region_of(endpoint)->0[i];
                'a' <= c && c <= 'z' || '0' <= c && c <= '9' || c == '-' || c == '\u{17f}'
            },
{
    let group = region_group(text::trimmed(endpoint))->0;
    assert(is_region(text::folded(group)));
    assert forall|i: int| 0 <= i < region_of(endpoint)->0.len() implies {
        let c = #[trigger] region_of(endpoint)->0[i];
        'a' <= c && c <= 'z' || '0' <= c && c <= '9' || c == '-' || c == '\u{17f}'
    } by {
        let f = text::folded(group);
        assert(f[i] == text::fold(group[i]));
        assert(region_of(endpoint)->0[i] == text::lower(group[i]));
        if i == 0 {
            assert('a' <= f[0] && f[0] <= 'z');
        } else if i == 1 {
            assert('a' <= f[1] && f[1] <= 'z');
        } else if i == 2 {
            assert(f[2] == '-');
        }
    }
}

/// The public and the internal host of a region tell the region, written with white space round them
/// or not: for two letters, a hyphen, and letters, digits and hyphens behind.
pub proof fn lemma_hosts_tell_regions(a: Seq<char>, region: Seq<char>, b: Seq<char>)
    requires
        forall|i: int| 0 <= i < a.len() ==> text::is_white(#[trigger] a[i]),
        forall|i: int| 0 <= i < b.len() ==> text::is_white(#[trigger] b[i]),
        region.len() > 3,
        'a' <= region[0] && region[0] <= 'z',
        'a' <= region[1] && region[1] <= 'z',
        region[2] == '-',
        forall|i: int|
            3 <= i < region.len() ==> 'a' <= #[trigger] region[i] && region[i] <= 'z' || '0'
                <= region[i] && region[i] <= '9' || region[i] == '-',
    ensures
        region_of(a + ("oss-"@ + region + "-internal.aliyuncs.com"@) + b) == Some(region),
        !"-internal"@.is_suffix_of(region) ==> region_of(
            a + ("oss-"@ + region + ".aliyuncs.com"@) + b,
        ) == Some(region),
{
    reveal_strlit("oss-");
    reveal_strlit(".aliyuncs.com");
    reveal_strlit("-internal");
    reveal_strlit("-internal.aliyuncs.com");
    let inner = "oss-"@ + region + "-internal.aliyuncs.com"@;
    let outer = "oss-"@ + region + ".aliyuncs.com"@;
    assert(inner =~= internal_host(region));
    assert(outer =~= public_host(region));
    assert(inner[0] == 'o' && inner.last() == 'm');
    assert(outer[0] == 'o' && outer.last() == 'm');
    lemma_internal_host_tells_region(region);
    text::lemma_trimmed_is_core(a, inner, b);
    text::lemma_trimmed_is_core(seq![], inner, seq![]);
    assert(seq![] + inner + seq![] =~= inner);
    text::lemma_trimmed_is_core(a, outer, b);
    text::lemma_trimmed_is_core(seq![], outer, seq![]);
    assert(seq![] + outer + seq![] =~= outer);
    if !"-internal"@.is_suffix_of(region) {
        lemma_public_host_tells_region(region);
    }
}

/// Case does not matter: of two endpoints that differ in case alone, both tell a region or neither
/// does, and the regions differ in case at most.
pub proof fn lemma_region_ignores_case(a: Seq<char>, b: Seq<char>)
    requires
        text::folded(text::trimmed(a)) == text::folded(text::trimmed(b)),
    ensures
        region_of(a) is Some <==> region_of(b) is Some,
        region_of(a) is Some ==> text::folded(region_of(a)->0) == text::folded(region_of(b)->0),
{
    reveal_strlit("-internal");
    let p = text::trimmed(a);
    let q = text::trimmed(b);
    assert(text::folded(p).len() == p.len());
    assert(text::folded(q).len() == q.len());
    assert forall|i: int| 0 <= i < p.len() implies text::fold(#[trigger] p[i]) == text::fold(q[i]) by {
        assert(text::folded(p)[i] == text::folded(q)[i]);
    }
    if p.len() >= 17 {
        let pi = p.subrange(4, p.len() - 13);
        let qi = q.subrange(4, q.len() - 13);
        assert(text::folded(pi) =~= text::folded(qi)) by {
            assert forall|i: int| 0 <= i < pi.len() implies text::fold(#[trigger] pi[i]) == text::fold(
                qi[i],
            ) by {
                assert(pi[i] == p[i + 4]);
            }
        }
        if pi.len() >= 9 {
            let po = pi.take(pi.len() - 9);
            let qo = qi.take(qi.len() - 9);
            assert(text::folded(po) =~= text::folded(qo)) by {
                assert forall|i: int| 0 <= i < po.len() implies text::fold(#[trigger] po[i])
                    == text::fold(qo[i]) by {
                    assert(po[i] == p[i + 4]);
                }
            }
        }
        if region_of(a) is Some {
            lemma_lower_then_fold(region_group(p)->0);
            lemma_lower_then_fold(region_group(q)->0);
        }
    }
}

proof fn lemma_lower_then_fold(s: Seq<char>)
    ensures
        text::folded(text::lowered(s)) == text::folded(s),
{
    assert(text::folded(text::lowered(s)) =~= text::folded(s));
}

/// An endpoint that tells a region is a host of that region, in whatever case: the public one, or the
/// internal one. And a region is two letters, a hyphen, and something behind.
pub proof fn lemma_region_comes_from_its_host(endpoint: Seq<char>)
    requires
        region_of(endpoint) is Some,
    ensures
        ({
            let region = text::folded(region_of(endpoint)->0);
            let host = text::folded(text::trimmed(endpoint));
            &&& region.len() > 3
            &&& 'a' <= region[0] && region[0] <= 'z'
            &&& 'a' <= region[1] && region[1] <= 'z'
            &&& region[2] == '-'
            &&& host == "oss-"@ + region + ".aliyuncs.com"@ || host == "oss-"@ + region
                + "-internal"@ + ".aliyuncs.com"@
        }),
{
    reveal_strlit("oss-");
    reveal_strlit("-internal");
    reveal_strlit(".aliyuncs.com");
    let s = text::trimmed(endpoint);
    let host = text::folded(s);
    let group = region_group(s)->0;
    lemma_lower_then_fold(group);
    let inner = s.subrange(4, s.len() - 13);
    let name = text::folded(inner);
    assert(host.subrange(0, 4) == "oss-"@);
    assert(host.subrange(host.len() - 13, host.len() as int) == ".aliyuncs.com"@);
    assert(name =~= host.subrange(4, host.len() - 13));
    assert(host =~= host.subrange(0, 4) + name + host.subrange(
        host.len() - 13,
        host.len() as int,
    ));
    if group != inner {
        assert(name.subrange(name.len() - 9, name.len() as int) == "-internal"@);
        assert(text::folded(group) =~= name.take(name.len() - 9));
        assert(name =~= name.take(name.len() - 9) + name.subrange(
            name.len() - 9,
            name.len() as int,
        ));
        assert(host =~= "oss-"@ + text::folded(group) + "-internal"@ + ".aliyuncs.com"@);
    } else {
        assert(host =~= "oss-"@ + text::folded(group) + ".aliyuncs.com"@);
    }
}

} // verus!
