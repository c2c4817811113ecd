//! The request-path algebra: how a (group, version, plural) identity and an
//! optional namespace determine the composite `apiVersion` string and the
//! hierarchical request path
//! `/api/<version>/[namespaces/<ns>/]<plural>` for the core group, or
//! `/apis/<group>/<version>/[namespaces/<ns>/]<plural>` otherwise.

use vstd::prelude::*;

verus! {

/// The composite `apiVersion`: the bare version when the group is empty,
/// `group/version` otherwise.
pub open spec fn api_version_view(group: Seq<char>, version: Seq<char>) -> Seq<char> {
    if group.len() == 0 {
        version
    } else {
        group + seq!['/'] + version
    }
}

/// The leading path segment: `api` for the core (unnamed) group, `apis`
/// for named groups.
pub open spec fn prefix_view(group: Seq<char>) -> Seq<char> {
    if group.len() == 0 {
        seq!['a', 'p', 'i']
    } else {
        seq!['a', 'p', 'i', 's']
    }
}

/// The characters `namespaces/`, which introduce a namespace segment.
pub open spec fn namespaces_marker() -> Seq<char> {
    seq!['n', 'a', 'm', 'e', 's', 'p', 'a', 'c', 'e', 's', '/']
}

/// The namespace portion of a path: `namespaces/<ns>/` when a namespace is
/// given, nothing otherwise.
pub open spec fn namespace_segment_view(namespace: Option<Seq<char>>) -> Seq<char> {
    match namespace {
        Some(ns) => namespaces_marker() + ns + seq!['/'],
        None => Seq::empty(),
    }
}

/// The full request path for a resource identity and optional namespace.
pub open spec fn url_path_view(
    group: Seq<char>,
    version: Seq<char>,
    plural: Seq<char>,
    namespace: Option<Seq<char>>,
) -> Seq<char> {
    seq!['/'] + prefix_view(group) + seq!['/'] + api_version_view(group, version) + seq!['/']
        + namespace_segment_view(namespace) + plural
}

/// `t` occurs as a contiguous subsequence of `s` starting at index `i`.
pub open spec fn occurs_at(s: Seq<char>, t: Seq<char>, i: int) -> bool {
    0 <= i && i + t.len() <= s.len() && s.subrange(i, i + t.len() as int) == t
}

/// `t` occurs somewhere as a contiguous subsequence of `s`.
pub open spec fn contains_seq(s: Seq<char>, t: Seq<char>) -> bool {
    exists|i: int| occurs_at(s, t, i)
}

/// A descriptor in the core (unnamed) group: the `apiVersion` is the bare
/// version, and the request path begins with `/api/`.
pub proof fn lemma_core_group_path(
    group: Seq<char>,
    version: Seq<char>,
    plural: Seq<char>,
    namespace: Option<Seq<char>>,
)
    requires
        group.len() == 0,
    ensures
        api_version_view(group, version) == version,
        url_path_view(group, version, plural, namespace).len() >= 5,
        url_path_view(group, version, plural, namespace).subrange(0, 5) == seq![
            '/',
            'a',
            'p',
            'i',
            '/',
        ],
{
    let path = url_path_view(group, version, plural, namespace);
    assert(path.subrange(0, 5) =~= seq!['/', 'a', 'p', 'i', '/']);
}

/// A descriptor in a named group: the `apiVersion` is `group/version`, and
/// the request path begins with `/apis/`.
pub proof fn lemma_named_group_path(
    group: Seq<char>,
    version: Seq<char>,
    plural: Seq<char>,
    namespace: Option<Seq<char>>,
)
    requires
        group.len() != 0,
    ensures
        api_version_view(group, version) == group + seq!['/'] + version,
        url_path_view(group, version, plural, namespace).len() >= 6,
        url_path_view(group, version, plural, namespace).subrange(0, 6) == seq![
            '/',
            'a',
            'p',
            'i',
            's',
            '/',
        ],
{
    let path = url_path_view(group, version, plural, namespace);
    assert(path.subrange(0, 6) =~= seq!['/', 'a', 'p', 'i', 's', '/']);
}

/// A namespaced request path carries `namespaces/<ns>/` as one contiguous
/// piece, immediately after the `apiVersion` segment's trailing slash and
/// immediately before the plural name, which ends the path.
pub proof fn lemma_namespaced_path_segment(
    group: Seq<char>,
    version: Seq<char>,
    plural: Seq<char>,
    ns: Seq<char>,
)
    ensures
        ({
            let path = url_path_view(group, version, plural, Some(ns));
            let seg = namespaces_marker() + ns + seq!['/'];
            let start = 3 + prefix_view(group).len() + api_version_view(group, version).len();
            &&& path.len() == start + seg.len() + plural.len()
            &&& path.subrange(0, start as int) == seq!['/'] + prefix_view(group) + seq!['/']
                + api_version_view(group, version) + seq!['/']
            &&& path.subrange(start as int, start + seg.len() as int) == seg
            &&& path.subrange(start + seg.len() as int, path.len() as int) == plural
            &&& occurs_at(path, namespaces_marker(), start as int)
        }),
{
    let path = url_path_view(group, version, plural, Some(ns));
    let seg = namespaces_marker() + ns + seq!['/'];
    let head = seq!['/'] + prefix_view(group) + seq!['/'] + api_version_view(group, version)
        + seq!['/'];
    let start = 3 + prefix_view(group).len() + api_version_view(group, version).len();
    assert(head.len() == start);
    assert(path =~= head + seg + plural);
    assert((head + seg + plural).subrange(0, start as int) =~= head);
    assert((head + seg + plural).subrange(start as int, start + seg.len() as int) =~= seg);
    assert((head + seg + plural).subrange(
        start + seg.len() as int,
        (head + seg + plural).len() as int,
    ) =~= plural);
    assert(path.subrange(start as int, start as int + 11) =~= namespaces_marker());
}

/// A cluster-scoped request path (no namespace) carries no `namespaces/`
/// marker anywhere, provided the identity fields are path-safe: none
/// contains a slash, and neither group nor version ends with the ten
/// characters `namespaces`.
#[verifier::rlimit(60)]
pub proof fn lemma_cluster_scoped_path_no_namespace_marker(
    group: Seq<char>,
    version: Seq<char>,
    plural: Seq<char>,
)
    requires
        !group.contains('/'),
        !version.contains('/'),
        !plural.contains('/'),
        group.len() >= 10 ==> group.subrange(group.len() - 10, group.len() as int)
            != namespaces_marker().subrange(0, 10),
        version.len() >= 10 ==> version.subrange(version.len() - 10, version.len() as int)
            != namespaces_marker().subrange(0, 10),
    ensures
        !contains_seq(url_path_view(group, version, plural, None), namespaces_marker()),
{
    let path = url_path_view(group, version, plural, None);
    let m = namespaces_marker();
    let pre = prefix_view(group);
    let av = api_version_view(group, version);
    let g = group.len() as int;
    let v = version.len() as int;
    let pl = pre.len() as int;
    let al = av.len() as int;
    assert(m[0] == 'n' && m[1] == 'a' && m[2] == 'm' && m[3] == 'e' && m[4] == 's' && m[5] == 'p'
        && m[6] == 'a' && m[7] == 'c' && m[8] == 'e' && m[9] == 's' && m[10] == '/');
    assert(forall|t: int| 0 <= t < 10 ==> m[t] != '/');
    if g == 0 {
        assert(pre[0] == 'a' && pre[1] == 'p' && pre[2] == 'i');
    } else {
        assert(pre[0] == 'a' && pre[1] == 'p' && pre[2] == 'i' && pre[3] == 's');
    }
    assert(forall|x: int| 0 <= x < pl ==> pre[x] != '/');
    assert(path.len() == 3 + pl + al + plural.len());
    assert(path[0] == '/');
    assert(forall|x: int| 0 <= x < pl ==> path[1 + x] == pre[x]);
    assert(path[1 + pl] == '/');
    assert(forall|x: int| 0 <= x < al ==> path[2 + pl + x] == av[x]);
    assert(path[2 + pl + al] == '/');
    assert(forall|x: int| 0 <= x < plural.len() ==> path[3 + pl + al + x] == plural[x]);
    if g != 0 {
        assert(al == g + 1 + v);
        assert(forall|x: int| 0 <= x < g ==> av[x] == group[x]);
        assert(av[g] == '/');
        assert(forall|x: int| 0 <= x < v ==> av[g + 1 + x] == version[x]);
    }
    assert forall|jj: int|
        0 <= jj < path.len() && path[jj] == '/' implies (jj == 0 || jj == 1 + pl || (g != 0 && jj
        == 2 + pl + g) || jj == 2 + pl + al) by {
        if 1 <= jj < 1 + pl {
            assert(path[jj] == pre[jj - 1]);
        } else if 2 + pl <= jj < 2 + pl + al {
            let x = jj - 2 - pl;
            assert(path[jj] == av[x]);
            if g == 0 {
                assert(av[x] == version[x]);
                assert(version[x] != '/');
            } else {
                if x < g {
                    assert(av[x] == group[x]);
                    assert(group[x] != '/');
                } else if x > g {
                    assert(av[x] == version[x - g - 1]);
                    assert(version[x - g - 1] != '/');
                }
            }
        } else if 3 + pl + al <= jj < path.len() {
            assert(path[jj] == plural[jj - 3 - pl - al]);
            assert(plural[jj - 3 - pl - al] != '/');
        }
    }
    assert forall|i: int| !occurs_at(path, m, i) by {
        if occurs_at(path, m, i) {
            assert forall|t: int| 0 <= t < 11 implies path[i + t] == m[t] by {
                assert(path.subrange(i, i + 11)[t] == m[t]);
            }
            let j = i + 10;
            assert(path[j] == '/');
            assert(j >= 10);
            assert(1 + pl <= 5);
            if g != 0 && j == 2 + pl + g {
                if g >= 10 {
                    assert forall|t: int| 0 <= t < 10 implies group.subrange(g - 10, g)[t]
                        == m.subrange(0, 10)[t] by {
                        assert(path[i + t] == m[t]);
                        assert(path[2 + pl + (g - 10 + t)] == av[g - 10 + t]);
                        assert(av[g - 10 + t] == group[g - 10 + t]);
                    }
                    assert(group.subrange(g - 10, g) =~= m.subrange(0, 10));
                    assert(false);
                } else {
                    let s1 = 1 + pl;
                    assert(i <= s1 < j);
                    assert(m[s1 - i] == path[s1]);
                    assert(m[s1 - i] != '/');
                    assert(false);
                }
            } else {
                assert(j == 2 + pl + al);
                let vs = 2 + pl + al - v;
                if v >= 10 {
                    assert forall|t: int| 0 <= t < 10 implies version.subrange(v - 10, v)[t]
                        == m.subrange(0, 10)[t] by {
                        assert(path[i + t] == m[t]);
                        if g == 0 {
                            assert(path[2 + pl + (v - 10 + t)] == av[v - 10 + t]);
                            assert(av[v - 10 + t] == version[v - 10 + t]);
                        } else {
                            assert(path[2 + pl + (g + 1 + (v - 10 + t))] == av[g + 1 + (v - 10
                                + t)]);
                            assert(av[g + 1 + (v - 10 + t)] == version[v - 10 + t]);
                        }
                    }
                    assert(version.subrange(v - 10, v) =~= m.subrange(0, 10));
                    assert(false);
                } else {
                    let sv = vs - 1;
                    assert(path[sv] == '/') by {
                        if g == 0 {
                            assert(sv == 1 + pl);
                        } else {
                            assert(sv == 2 + pl + g);
                            assert(path[2 + pl + g] == av[g]);
                        }
                    }
                    assert(i <= sv < j);
                    assert(m[sv - i] == path[sv]);
                    assert(m[sv - i] != '/');
                    assert(false);
                }
            }
        }
    }
    assert(!contains_seq(path, m));
}

} // verus!
