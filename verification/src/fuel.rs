//! Gazebo Fuel asset locations.
//!
//! Gazebo simulations reference Fuel assets with URIs that contain a Fuel
//! host name. They arrive either as HTTPS URLs or as paths into the local
//! Fuel cache, and are turned into `fuel://` asset paths. An asset path
//! `fuel://P` is fetched from `https://fuel.gazebosim.org/1.0/P`.
use vstd::prelude::*;
use crate::text::{
    chars_of, contains, is_clean_path, is_component, lemma_clean_path_segments, lemma_segments_component,
    lemma_segments_slash, occurs_at, contains_exec, find, find_exec, is_prefix, is_prefix_exec, join, join_exec,
    lemma_find_contains, push_range, push_str, segments, segments_exec, string_of_range, sub_chars,
};

verus! {

/// Primary Fuel server hostname.
pub const FUEL_HOST: &'static str = "fuel.gazebosim.org";

/// Fuel API version used when constructing URLs.
pub const FUEL_VERSION: &'static str = "1.0";

/// Legacy Fuel server hostname (Ignition era).
pub const IGN_FUEL_HOST: &'static str = "fuel.ignitionrobotics.org";

/// `https://<host>/`
pub open spec fn https_host_prefix(host: Seq<char>) -> Seq<char> {
    "https://"@ + host + "/"@
}

/// `https://<host>/<version>/`
pub open spec fn https_versioned_prefix(host: Seq<char>) -> Seq<char> {
    "https://"@ + host + "/"@ + FUEL_VERSION@ + "/"@
}

/// The `fuel://` path for an HTTPS URL on `host`, if `uri` is one.
pub open spec fn https_fuel_path(uri: Seq<char>, host: Seq<char>) -> Option<Seq<char>> {
    if is_prefix(https_versioned_prefix(host), uri) {
        Some("fuel://"@ + uri.skip(https_versioned_prefix(host).len() as int))
    } else if is_prefix(https_host_prefix(host), uri) {
        Some("fuel://"@ + uri.skip(https_host_prefix(host).len() as int))
    } else {
        None
    }
}

/// The `fuel://` path for a local cache path that holds `host`: the
/// non-empty path components after the first occurrence of `host` are
/// `owner/models/name/version/<rest>`, and `files/` is put before `<rest>`.
/// `None` when `host` does not occur or nothing follows it.
pub open spec fn local_fuel_path(uri: Seq<char>, host: Seq<char>) -> Option<Seq<char>> {
    match find(uri, host) {
        Some(idx) => {
            let parts = segments(uri.skip(idx + host.len()), '/');
            if parts.len() >= 5 {
                Some(
                    "fuel://"@ + join(parts.subrange(0, 4), "/"@) + "/files/"@ + join(
                        parts.subrange(4, parts.len() as int),
                        "/"@,
                    ),
                )
            } else if parts.len() > 0 {
                Some("fuel://"@ + join(parts, "/"@))
            } else {
                None
            }
        },
        None => None,
    }
}

/// The asset path for `uri`: HTTPS forms are tried first (primary host, then
/// legacy host), then local cache paths (same order); any other URI is kept.
pub open spec fn fuel_asset_path(uri: Seq<char>) -> Seq<char> {
    match https_fuel_path(uri, FUEL_HOST@) {
        Some(p) => p,
        None => match https_fuel_path(uri, IGN_FUEL_HOST@) {
            Some(p) => p,
            None => match local_fuel_path(uri, FUEL_HOST@) {
                Some(p) => p,
                None => match local_fuel_path(uri, IGN_FUEL_HOST@) {
                    Some(p) => p,
                    None => uri,
                },
            },
        },
    }
}

/// Returns `true` if the URI references a Gazebo Fuel asset.
pub fn is_fuel_uri(uri: &str) -> (b: bool)
    ensures
        b == (contains(uri@, FUEL_HOST@) || contains(uri@, IGN_FUEL_HOST@)),
{
    let u = chars_of(uri);
    let h1 = chars_of(FUEL_HOST);
    if contains_exec(&u, &h1) {
        return true;
    }
    let h2 = chars_of(IGN_FUEL_HOST);
    contains_exec(&u, &h2)
}

/// `https://<host>/` as a string.
fn https_host_prefix_exec(host: &str) -> (r: Vec<char>)
    ensures
        r@ == https_host_prefix(host@),
{
    let mut s = String::new();
    push_str(&mut s, "https://");
    push_str(&mut s, host);
    push_str(&mut s, "/");
    chars_of(s.as_str())
}

/// `https://<host>/<version>/` as a string.
fn https_versioned_prefix_exec(host: &str) -> (r: Vec<char>)
    ensures
        r@ == https_versioned_prefix(host@),
{
    let mut s = String::new();
    push_str(&mut s, "https://");
    push_str(&mut s, host);
    push_str(&mut s, "/");
    push_str(&mut s, FUEL_VERSION);
    push_str(&mut s, "/");
    chars_of(s.as_str())
}

/// `fuel://` followed by `u[from..]`.
fn fuel_path_of_rest(u: &Vec<char>, from: usize) -> (r: String)
    requires
        from <= u.len(),
    ensures
        r@ == "fuel://"@ + u@.skip(from as int),
{
    let mut s = String::new();
    push_str(&mut s, "fuel://");
    push_range(&mut s, u, from, u.len());
    assert(u@.subrange(from as int, u@.len() as int) =~= u@.skip(from as int));
    s
}

fn https_fuel_path_exec(u: &Vec<char>, host: &str) -> (r: Option<String>)
    ensures
        r matches Some(p) ==> https_fuel_path(u@, host@) == Some(p@),
        r is None ==> https_fuel_path(u@, host@) is None,
{
    let versioned = https_versioned_prefix_exec(host);
    if is_prefix_exec(&versioned, u) {
        return Some(fuel_path_of_rest(u, versioned.len()));
    }
    let plain = https_host_prefix_exec(host);
    if is_prefix_exec(&plain, u) {
        return Some(fuel_path_of_rest(u, plain.len()));
    }
    None
}

fn local_fuel_path_exec(u: &Vec<char>, host: &str) -> (r: Option<String>)
    ensures
        r matches Some(p) ==> local_fuel_path(u@, host@) == Some(p@),
        r is None ==> local_fuel_path(u@, host@) is None,
{
    let h = chars_of(host);
    match find_exec(u, &h) {
        Some(idx) => {
            proof {
                lemma_find_contains(u@, h@);
                assert(occurs_at(u@, h@, idx as int));
                assert(idx + h@.len() <= u@.len());
            }
            let hl = h.len();
            assert(idx + hl <= u.len());
            let after = sub_chars(u, idx + hl, u.len());
            assert(after@ =~= u@.skip(idx + h@.len()));
            let parts = segments_exec(&after, '/');
            let ghost views = parts@.map_values(|x: String| x@);
            if parts.len() >= 5 {
                let mut s = String::new();
                push_str(&mut s, "fuel://");
                let prefix = join_exec(&parts, 0, 4, "/");
                push_str(&mut s, prefix.as_str());
                push_str(&mut s, "/files/");
                let suffix = join_exec(&parts, 4, parts.len(), "/");
                push_str(&mut s, suffix.as_str());
                Some(s)
            } else if parts.len() > 0 {
                let mut s = String::new();
                push_str(&mut s, "fuel://");
                let all = join_exec(&parts, 0, parts.len(), "/");
                assert(views.subrange(0, views.len() as int) =~= views);
                push_str(&mut s, all.as_str());
                Some(s)
            } else {
                None
            }
        },
        None => None,
    }
}

/// Convert a Gazebo Fuel URI into a `fuel://` asset path.
///
/// Local paths like
///   `/home/user/.gazebo/fuel/fuel.gazebosim.org/owner/models/name/1/meshes/body.stl`
/// become
///   `fuel://owner/models/name/1/files/meshes/body.stl`;
/// HTTPS URLs like
///   `https://fuel.gazebosim.org/1.0/owner/models/name/1/files/meshes/body.stl`
/// become
///   `fuel://owner/models/name/1/files/meshes/body.stl`;
/// every other URI is returned unchanged.
pub fn create_fuel_asset_path(uri: &str) -> (r: String)
    ensures
        r@ == fuel_asset_path(uri@),
{
    let u = chars_of(uri);
    if let Some(p) = https_fuel_path_exec(&u, FUEL_HOST) {
        return p;
    }
    if let Some(p) = https_fuel_path_exec(&u, IGN_FUEL_HOST) {
        return p;
    }
    if let Some(p) = local_fuel_path_exec(&u, FUEL_HOST) {
        return p;
    }
    if let Some(p) = local_fuel_path_exec(&u, IGN_FUEL_HOST) {
        return p;
    }
    string_of_range(&u, 0, u.len())
}

/// Reconstruct the full HTTPS Fuel URL from the asset path portion.
pub fn fuel_path_to_url(path: &str) -> (r: String)
    ensures
        r@ == https_versioned_prefix(FUEL_HOST@) + path@,
{
    let mut s = String::new();
    push_str(&mut s, "https://");
    push_str(&mut s, FUEL_HOST);
    push_str(&mut s, "/");
    push_str(&mut s, FUEL_VERSION);
    push_str(&mut s, "/");
    push_str(&mut s, path);
    s
}

// ───────────────────────── laws ─────────────────────────

/// An HTTPS URL on the primary Fuel host, `https://fuel.gazebosim.org/1.0/P`,
/// becomes the asset path `fuel://P`, and the asset path `fuel://P` is
/// fetched (see [`fuel_path_to_url`]) from that same URL.
pub proof fn lemma_https_asset_path_roundtrip(p: Seq<char>)
    ensures
        fuel_asset_path(https_versioned_prefix(FUEL_HOST@) + p) == "fuel://"@ + p,
{
    let pre = https_versioned_prefix(FUEL_HOST@);
    let uri = pre + p;
    assert(uri.take(pre.len() as int) =~= pre);
    assert(uri.skip(pre.len() as int) =~= p);
}

/// A URI on neither `host` prefix form holds `host`: so without `host` in it,
/// no HTTPS form applies.
proof fn lemma_https_form_needs_host(uri: Seq<char>, host: Seq<char>)
    requires
        !contains(uri, host),
    ensures
        https_fuel_path(uri, host) is None,
{
    let at = "https://"@.len() as int;
    let v = https_versioned_prefix(host);
    let h = https_host_prefix(host);
    if is_prefix(v, uri) {
        assert(uri.subrange(at, at + host.len()) =~= v.subrange(at, at + host.len()));
        assert(v.subrange(at, at + host.len()) =~= host);
        assert(occurs_at(uri, host, at));
    }
    if is_prefix(h, uri) {
        assert(uri.subrange(at, at + host.len()) =~= h.subrange(at, at + host.len()));
        assert(h.subrange(at, at + host.len()) =~= host);
        assert(occurs_at(uri, host, at));
    }
}

/// A URI that names no Fuel host is kept unchanged.
pub proof fn lemma_non_fuel_uri_unchanged(uri: Seq<char>)
    requires
        !contains(uri, FUEL_HOST@),
        !contains(uri, IGN_FUEL_HOST@),
    ensures
        fuel_asset_path(uri) == uri,
{
    lemma_https_form_needs_host(uri, FUEL_HOST@);
    lemma_https_form_needs_host(uri, IGN_FUEL_HOST@);
    lemma_find_contains(uri, FUEL_HOST@);
    lemma_find_contains(uri, IGN_FUEL_HOST@);
}

/// Every URI is either kept as it is or becomes a `fuel://` asset path.
pub proof fn lemma_asset_path_kept_or_fuel(uri: Seq<char>)
    ensures
        fuel_asset_path(uri) == uri || is_prefix("fuel://"@, fuel_asset_path(uri)),
{
    let f = "fuel://"@;
    assert forall|rest: Seq<char>| #[trigger] is_prefix(f, f + rest) by {
        assert((f + rest).take(f.len() as int) =~= f);
    }
    let r = fuel_asset_path(uri);
    if r != uri {
        if let Some(p) = local_fuel_path(uri, FUEL_HOST@) {
            let parts = segments(uri.skip(find(uri, FUEL_HOST@)->0 + FUEL_HOST@.len()), '/');
            if parts.len() >= 5 {
                assert(p == f + (join(parts.subrange(0, 4), "/"@) + "/files/"@ + join(
                    parts.subrange(4, parts.len() as int),
                    "/"@,
                )));
            }
        }
        if let Some(p) = local_fuel_path(uri, IGN_FUEL_HOST@) {
            let parts = segments(uri.skip(find(uri, IGN_FUEL_HOST@)->0 + IGN_FUEL_HOST@.len()), '/');
            if parts.len() >= 5 {
                assert(p == f + (join(parts.subrange(0, 4), "/"@) + "/files/"@ + join(
                    parts.subrange(4, parts.len() as int),
                    "/"@,
                )));
            }
        }
    }
}


/// Without an `https://` at its start, a URI has no HTTPS Fuel form.
proof fn lemma_no_https_form(uri: Seq<char>, host: Seq<char>)
    requires
        !is_prefix("https://"@, uri),
    ensures
        https_fuel_path(uri, host) is None,
{
    let h = "https://"@;
    let v = https_versioned_prefix(host);
    let p = https_host_prefix(host);
    reveal_strlit("https://");
    if is_prefix(v, uri) {
        assert(v.take(h.len() as int) =~= h);
        assert(uri.take(h.len() as int) =~= uri.take(v.len() as int).take(h.len() as int));
        assert(is_prefix(h, uri));
    }
    if is_prefix(p, uri) {
        assert(p.take(h.len() as int) =~= h);
        assert(uri.take(h.len() as int) =~= uri.take(p.len() as int).take(h.len() as int));
        assert(is_prefix(h, uri));
    }
}

/// After the host, `/o/k/n/v/rest` splits into `o`, `k`, `n`, `v` and the
/// components of `rest`.
proof fn lemma_cache_components(o: Seq<char>, k: Seq<char>, n: Seq<char>, v: Seq<char>, rest: Seq<char>)
    requires
        is_component(o),
        is_component(k),
        is_component(n),
        is_component(v),
        is_clean_path(rest),
    ensures
        segments(seq!['/'] + o + seq!['/'] + k + seq!['/'] + n + seq!['/'] + v + seq!['/'] + rest, '/') == seq![o, k, n, v]
            + segments(rest, '/'),
{
    let sl = seq!['/'];
    let t4 = sl + rest;
    let t3 = sl + v + t4;
    let t2 = sl + n + t3;
    let t1 = sl + k + t2;
    let t0 = sl + o + t1;
    assert(t0 =~= sl + o + sl + k + sl + n + sl + v + sl + rest);
    lemma_segments_slash(o + t1);
    lemma_segments_component(o, t1);
    lemma_segments_slash(k + t2);
    assert(t1 =~= sl + (k + t2));
    lemma_segments_component(k, t2);
    lemma_segments_slash(n + t3);
    assert(t2 =~= sl + (n + t3));
    lemma_segments_component(n, t3);
    lemma_segments_slash(v + t4);
    assert(t3 =~= sl + (v + t4));
    lemma_segments_component(v, t4);
    lemma_segments_slash(rest);
    assert(t0 =~= sl + (o + t1));
    assert(seq![o] + (seq![k] + (seq![n] + (seq![v] + segments(rest, '/')))) =~= seq![o, k, n, v] + segments(rest, '/'));
}

/// The local cache path `pre + host + "/o/k/n/v/" + rest`, whose first
/// occurrence of `host` follows `pre`, has the asset path
/// `fuel://o/k/n/v/files/rest`.
proof fn lemma_local_cache_path_on(
    uri: Seq<char>,
    host: Seq<char>,
    pre: Seq<char>,
    o: Seq<char>,
    k: Seq<char>,
    n: Seq<char>,
    v: Seq<char>,
    rest: Seq<char>,
)
    requires
        uri == pre + host + "/"@ + o + "/"@ + k + "/"@ + n + "/"@ + v + "/"@ + rest,
        forall|i: int| 0 <= i < pre.len() ==> !occurs_at(uri, host, i),
        is_component(o),
        is_component(k),
        is_component(n),
        is_component(v),
        is_clean_path(rest),
    ensures
        local_fuel_path(uri, host) == Some("fuel://"@ + o + "/"@ + k + "/"@ + n + "/"@ + v + "/files/"@ + rest),
{
    reveal_strlit("/");
    reveal_strlit("/files/");
    let sl = seq!['/'];
    let at = pre.len() as int;
    assert(uri.subrange(at, at + host.len()) =~= host);
    assert(occurs_at(uri, host, at));
    lemma_find_contains(uri, host);
    crate::text::lemma_find_from(uri, host, 0);
    let f = find(uri, host)->0;
    assert(f == at);
    let after = uri.skip(at + host.len());
    assert(after =~= sl + o + sl + k + sl + n + sl + v + sl + rest);
    lemma_cache_components(o, k, n, v, rest);
    lemma_clean_path_segments(rest);
    let parts = segments(after, '/');
    assert(parts.subrange(0, 4) =~= seq![o, k, n, v]);
    assert(parts.subrange(4, parts.len() as int) =~= segments(rest, '/'));
    assert(seq![o, k, n, v].drop_last() =~= seq![o, k, n]);
    assert(seq![o, k, n].drop_last() =~= seq![o, k]);
    assert(seq![o, k].drop_last() =~= seq![o]);
    assert("/"@ =~= sl);
    assert(join(parts.subrange(4, parts.len() as int), "/"@) == rest);
    assert(join(seq![o], "/"@) == o);
    assert(join(seq![o, k], "/"@) == o + sl + k);
    assert(join(seq![o, k, n], "/"@) == o + sl + k + sl + n);
    assert(join(seq![o, k, n, v], "/"@) == o + sl + k + sl + n + sl + v);
    assert("fuel://"@ + join(parts.subrange(0, 4), "/"@) + "/files/"@ + join(parts.subrange(4, parts.len() as int), "/"@)
        =~= "fuel://"@ + o + "/"@ + k + "/"@ + n + "/"@ + v + "/files/"@ + rest);
}

/// A path into the local Fuel cache,
/// `<anything>fuel.gazebosim.org/<owner>/<kind>/<name>/<version>/<rest>`,
/// becomes `fuel://<owner>/<kind>/<name>/<version>/files/<rest>`: the asset
/// is fetched from the `files/` tree of that model version. The path is not
/// an `https://` URL, the host occurs first right after `<anything>`, the
/// four leading components hold no `/`, and `<rest>` is one or more
/// components joined by single `/`s.
pub proof fn lemma_local_cache_asset_path(
    uri: Seq<char>,
    pre: Seq<char>,
    owner: Seq<char>,
    kind: Seq<char>,
    name: Seq<char>,
    version: Seq<char>,
    rest: Seq<char>,
)
    requires
        uri == pre + FUEL_HOST@ + "/"@ + owner + "/"@ + kind + "/"@ + name + "/"@ + version + "/"@ + rest,
        !is_prefix("https://"@, uri),
        forall|i: int| 0 <= i < pre.len() ==> !occurs_at(uri, FUEL_HOST@, i),
        is_component(owner),
        is_component(kind),
        is_component(name),
        is_component(version),
        is_clean_path(rest),
    ensures
        fuel_asset_path(uri) == "fuel://"@ + owner + "/"@ + kind + "/"@ + name + "/"@ + version + "/files/"@ + rest,
{
    lemma_no_https_form(uri, FUEL_HOST@);
    lemma_no_https_form(uri, IGN_FUEL_HOST@);
    lemma_local_cache_path_on(uri, FUEL_HOST@, pre, owner, kind, name, version, rest);
}

/// The same for the legacy host `fuel.ignitionrobotics.org`, in a path that
/// does not name the primary host.
pub proof fn lemma_legacy_cache_asset_path(
    uri: Seq<char>,
    pre: Seq<char>,
    owner: Seq<char>,
    kind: Seq<char>,
    name: Seq<char>,
    version: Seq<char>,
    rest: Seq<char>,
)
    requires
        uri == pre + IGN_FUEL_HOST@ + "/"@ + owner + "/"@ + kind + "/"@ + name + "/"@ + version + "/"@ + rest,
        !is_prefix("https://"@, uri),
        !contains(uri, FUEL_HOST@),
        forall|i: int| 0 <= i < pre.len() ==> !occurs_at(uri, IGN_FUEL_HOST@, i),
        is_component(owner),
        is_component(kind),
        is_component(name),
        is_component(version),
        is_clean_path(rest),
    ensures
        fuel_asset_path(uri) == "fuel://"@ + owner + "/"@ + kind + "/"@ + name + "/"@ + version + "/files/"@ + rest,
{
    lemma_no_https_form(uri, FUEL_HOST@);
    lemma_no_https_form(uri, IGN_FUEL_HOST@);
    lemma_find_contains(uri, FUEL_HOST@);
    lemma_local_cache_path_on(uri, IGN_FUEL_HOST@, pre, owner, kind, name, version, rest);
}


/// HTTPS Fuel URLs become `fuel://` asset paths: on either host, with the
/// API version (`https://<host>/1.0/P`) or, when `P` does not start with
/// `1.0/`, without it (`https://<host>/P`), the asset path is `fuel://P`.
pub proof fn lemma_https_fuel_urls(p: Seq<char>)
    ensures
        fuel_asset_path("https://fuel.gazebosim.org/1.0/"@ + p) == "fuel://"@ + p,
        fuel_asset_path("https://fuel.ignitionrobotics.org/1.0/"@ + p) == "fuel://"@ + p,
        !is_prefix("1.0/"@, p) ==> fuel_asset_path("https://fuel.gazebosim.org/"@ + p) == "fuel://"@ + p,
        !is_prefix("1.0/"@, p) ==> fuel_asset_path("https://fuel.ignitionrobotics.org/"@ + p) == "fuel://"@ + p,
{
    reveal_strlit("https://fuel.gazebosim.org/1.0/");
    reveal_strlit("https://fuel.ignitionrobotics.org/1.0/");
    reveal_strlit("https://fuel.gazebosim.org/");
    reveal_strlit("https://fuel.ignitionrobotics.org/");
    reveal_strlit("https://");
    reveal_strlit("/");
    reveal_strlit("1.0");
    reveal_strlit("1.0/");
    reveal_strlit("fuel.gazebosim.org");
    reveal_strlit("fuel.ignitionrobotics.org");
    let gv = https_versioned_prefix(FUEL_HOST@);
    let gh = https_host_prefix(FUEL_HOST@);
    let iv = https_versioned_prefix(IGN_FUEL_HOST@);
    let ih = https_host_prefix(IGN_FUEL_HOST@);
    assert(gv =~= "https://fuel.gazebosim.org/1.0/"@);
    assert(gh =~= "https://fuel.gazebosim.org/"@);
    assert(iv =~= "https://fuel.ignitionrobotics.org/1.0/"@);
    assert(ih =~= "https://fuel.ignitionrobotics.org/"@);
    let u1 = gv + p;
    assert(u1.take(gv.len() as int) =~= gv);
    assert(u1.skip(gv.len() as int) =~= p);
    let u2 = iv + p;
    assert(u2.take(iv.len() as int) =~= iv);
    assert(u2.skip(iv.len() as int) =~= p);
    assert(u2.take(gh.len() as int)[13] != gh[13]);
    assert(u2.take(gv.len() as int)[13] != gv[13]);
    let u3 = gh + p;
    assert(u3.take(gh.len() as int) =~= gh);
    assert(u3.skip(gh.len() as int) =~= p);
    assert(gv.skip(gh.len() as int) =~= "1.0/"@);
    assert(iv.skip(ih.len() as int) =~= "1.0/"@);
    if is_prefix(gv, u3) {
        assert(p.take(4) =~= u3.take(gv.len() as int).skip(gh.len() as int));
        assert(is_prefix("1.0/"@, p));
    }
    let u4 = ih + p;
    assert(u4.take(ih.len() as int) =~= ih);
    assert(u4.skip(ih.len() as int) =~= p);
    if u4.len() >= gh.len() {
        assert(u4.take(gh.len() as int)[13] != gh[13]);
    }
    if u4.len() >= gv.len() {
        assert(u4.take(gv.len() as int)[13] != gv[13]);
    }
    if is_prefix(iv, u4) {
        assert(p.take(4) =~= u4.take(iv.len() as int).skip(ih.len() as int));
        assert(is_prefix("1.0/"@, p));
    }
}

} // verus!
