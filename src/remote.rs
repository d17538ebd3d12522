//! The remote control's requests: which action a request asks for, and how
//! its query parameters are read.
use vstd::prelude::*;
use crate::text::{chars_of, push_char};

verus! {

/// An intent from the remote control. Volume is in thousandths, the seek
/// target in milliseconds.
#[derive(Debug, Clone, Copy, PartialEq, Eq, Structural)]
pub enum RemoteCommand {
    Toggle,
    Next,
    Prev,
    SetVolume(u32),
    Seek(u64),
    CycleTheme,
    CycleVisualizer,
    ToggleShuffle,
}

/// The first position at or after `from` and before `end` that holds `c`;
/// `end` when there is none.
pub open spec fn find_in(s: Seq<char>, c: char, from: int, end: int) -> int
    decreases end - from,
{
    if from >= end {
        end
    } else if s[from] == c {
        from
    } else {
        find_in(s, c, from + 1, end)
    }
}

/// The value of `key` among the `&`-separated pairs of `u[start..end]`: the
/// first pair whose name (the part before its first `=`) is `key` decides;
/// it gives the text after its first `=`, or nothing when it has no `=`.
pub open spec fn param_from(u: Seq<char>, key: Seq<char>, start: int, end: int) -> Option<Seq<char>>
    decreases end - start,
    via param_from_decreases
{
    if start > end {
        None
    } else {
        let stop = find_in(u, '&', start, end);
        let eq = find_in(u, '=', start, stop);
        if u.subrange(start, eq) == key {
            if eq < stop {
                Some(u.subrange(eq + 1, stop))
            } else {
                None
            }
        } else if stop >= end {
            None
        } else {
            param_from(u, key, stop + 1, end)
        }
    }
}

#[via_fn]
proof fn param_from_decreases(u: Seq<char>, key: Seq<char>, start: int, end: int) {
    if start <= end {
        lemma_find_in_range(u, '&', start, end);
    }
}

/// The value of `key` in the query of `url`: the text between the first `?`
/// and the next one (or the end).
pub open spec fn query_param(url: Seq<char>, key: Seq<char>) -> Option<Seq<char>> {
    let q = find_in(url, '?', 0, url.len() as int);
    if q >= url.len() {
        None
    } else {
        param_from(url, key, q + 1, find_in(url, '?', q + 1, url.len() as int))
    }
}

proof fn lemma_find_in_range(s: Seq<char>, c: char, from: int, end: int)
    requires
        from <= end,
    ensures
        from <= find_in(s, c, from, end) <= end,
    decreases end - from,
{
    if from < end && s[from] != c {
        lemma_find_in_range(s, c, from + 1, end);
    }
}

fn find_char(s: &[char], c: char, from: usize, end: usize) -> (r: usize)
    requires
        from <= end <= s@.len(),
    ensures
        r == find_in(s@, c, from as int, end as int),
        from <= r <= end,
{
    let mut i: usize = from;
    while i < end && s[i] != c
        invariant
            from <= i <= end <= s@.len(),
            find_in(s@, c, from as int, end as int) == find_in(s@, c, i as int, end as int),
        decreases end - i,
    {
        i = i + 1;
    }
    i
}

fn range_equals(s: &[char], start: usize, end: usize, key: &[char]) -> (r: bool)
    requires
        start <= end <= s@.len(),
    ensures
        r == (s@.subrange(start as int, end as int) == key@),
{
    if end - start != key.len() {
        return false;
    }
    let mut k: usize = 0;
    while k < key.len()
        invariant
            end - start == key@.len(),
            start <= end <= s@.len(),
            k <= key@.len(),
            forall|j: int| 0 <= j < k ==> s@[start + j] == key@[j],
        decreases key@.len() - k,
    {
        if s[start + k] != key[k] {
            assert(s@.subrange(start as int, end as int)[k as int] != key@[k as int]);
            return false;
        }
        k = k + 1;
    }
    assert(s@.subrange(start as int, end as int) =~= key@);
    true
}

/// The value of parameter `key` in the query of `url` (see [`query_param`]).
pub fn parse_query_param(url: &str, key: &str) -> (r: Option<String>)
    ensures
        r is None <==> query_param(url@, key@) is None,
        r is Some ==> r->Some_0@ == query_param(url@, key@)->Some_0,
{
    let u = chars_of(url);
    let k = chars_of(key);
    let len = u.len();
    let q = find_char(u.as_slice(), '?', 0, len);
    if q >= len {
        return None;
    }
    let end = find_char(u.as_slice(), '?', q + 1, len);
    let mut start: usize = q + 1;
    while start <= end
        invariant
            u@ == url@,
            k@ == key@,
            len == u@.len(),
            q < len,
            q + 1 <= end <= len,
            end == find_in(url@, '?', q + 1, len as int),
            query_param(url@, key@) == param_from(url@, key@, start as int, end as int),
        decreases end + 1 - start,
    {
        let stop = find_char(u.as_slice(), '&', start, end);
        let eq = find_char(u.as_slice(), '=', start, stop);
        if range_equals(u.as_slice(), start, eq, k.as_slice()) {
            if eq < stop {
                let mut out = String::new();
                let mut i: usize = eq + 1;
                while i < stop
                    invariant
                        eq + 1 <= i <= stop <= len,
                        len == u@.len(),
                        out@ == u@.subrange(eq + 1, i as int),
                    decreases stop - i,
                {
                    push_char(&mut out, u[i]);
                    i = i + 1;
                    assert(out@ =~= u@.subrange(eq + 1, i as int));
                }
                return Some(out);
            } else {
                return None;
            }
        } else if stop >= end {
            return None;
        }
        start = stop + 1;
    }
    None
}

/// How a request is sent.
#[derive(Debug, Clone, Copy, PartialEq, Eq, Structural)]
pub enum Method {
    Get,
    Post,
    Other,
}

/// What a request asks for.
#[derive(Debug, Clone, Copy, PartialEq, Eq, Structural)]
pub enum Route {
    Page,
    Status,
    Toggle,
    Next,
    Prev,
    Theme,
    Visualizer,
    Shuffle,
    Volume,
    Seek,
    NotFound,
}

pub open spec fn is_prefix(p: Seq<char>, s: Seq<char>) -> bool {
    p.len() <= s.len() && s.subrange(0, p.len() as int) == p
}

/// The action for a request: the page and the status are read with GET, the
/// actions are POSTed to their exact paths, and volume and seek to any path
/// that starts with theirs (the value comes in the query).
pub open spec fn route_of(method: Method, url: Seq<char>) -> Route {
    if method == Method::Get && url == "/"@ {
        Route::Page
    } else if method == Method::Get && url == "/api/status"@ {
        Route::Status
    } else if method == Method::Post && url == "/api/toggle"@ {
        Route::Toggle
    } else if method == Method::Post && url == "/api/next"@ {
        Route::Next
    } else if method == Method::Post && url == "/api/prev"@ {
        Route::Prev
    } else if method == Method::Post && url == "/api/theme"@ {
        Route::Theme
    } else if method == Method::Post && url == "/api/visualizer"@ {
        Route::Visualizer
    } else if method == Method::Post && url == "/api/shuffle"@ {
        Route::Shuffle
    } else if method == Method::Post && is_prefix("/api/volume"@, url) {
        Route::Volume
    } else if method == Method::Post && is_prefix("/api/seek"@, url) {
        Route::Seek
    } else {
        Route::NotFound
    }
}

fn is_exactly(u: &[char], lit: &str) -> (r: bool)
    ensures
        r == (u@ == lit@),
{
    let l = chars_of(lit);
    let r = range_equals(u, 0, u.len(), l.as_slice());
    assert(u@.subrange(0, u@.len() as int) =~= u@);
    r
}

fn starts_with(u: &[char], lit: &str) -> (r: bool)
    ensures
        r == is_prefix(lit@, u@),
{
    let l = chars_of(lit);
    if l.len() > u.len() {
        return false;
    }
    range_equals(u, 0, l.len(), l.as_slice())
}

/// The action that a request asks for (see [`route_of`]).
pub fn route(method: Method, url: &str) -> (r: Route)
    ensures
        r == route_of(method, url@),
{
    let u = chars_of(url);
    let s = u.as_slice();
    match method {
        Method::Get => {
            if is_exactly(s, "/") {
                Route::Page
            } else if is_exactly(s, "/api/status") {
                Route::Status
            } else {
                Route::NotFound
            }
        },
        Method::Post => {
            if is_exactly(s, "/api/toggle") {
                Route::Toggle
            } else if is_exactly(s, "/api/next") {
                Route::Next
            } else if is_exactly(s, "/api/prev") {
                Route::Prev
            } else if is_exactly(s, "/api/theme") {
                Route::Theme
            } else if is_exactly(s, "/api/visualizer") {
                Route::Visualizer
            } else if is_exactly(s, "/api/shuffle") {
                Route::Shuffle
            } else if starts_with(s, "/api/volume") {
                Route::Volume
            } else if starts_with(s, "/api/seek") {
                Route::Seek
            } else {
                Route::NotFound
            }
        },
        Method::Other => Route::NotFound,
    }
}

/// A volume in thousandths, kept within silence and full volume.
pub fn clamp_volume(thousandths: i64) -> (r: u32)
    ensures
        r == if thousandths < 0 {
            0
        } else if thousandths > 1000 {
            1000
        } else {
            thousandths
        },
{
    if thousandths < 0 {
        0
    } else if thousandths > 1000 {
        1000
    } else {
        thousandths as u32
    }
}

} // verus!
