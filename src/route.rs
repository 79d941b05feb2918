//! Routing: a table of (method, path pattern, handler) entries, matching of
//! concrete paths against patterns with `:name` segments, and the canonical
//! "not found" response.
use vstd::prelude::*;
use vstd::string::*;
use vstd::utf8::encode_utf8;

use crate::fields::{insert_pair, lookup, Fields};
use crate::request::Request;
use crate::response::{Parts, Response};
use crate::status::StatusCode;
use crate::text::{
    decimal, decimal_string,
    chars_of, front_bound, split_on, split_range, str_eq, substring, trim_both, trim_front,
    trim_range, views,
};

verus! {

/// The segments of a path: split on `/` once the `/`s at either end are
/// left out.
pub open spec fn segments(s: Seq<char>) -> Seq<Seq<char>> {
    split_on(trim_both(s, '/'), '/')
}

/// A pattern segment that binds a parameter starts with `:`.
pub open spec fn is_param(seg: Seq<char>) -> bool {
    seg.len() > 0 && seg[0] == ':'
}

/// The name that a parameter segment binds: the segment without its
/// leading `:`s.
pub open spec fn param_name(seg: Seq<char>) -> Seq<char> {
    trim_front(seg, ':')
}

/// Path segments fit pattern segments: as many of them, and equal wherever
/// the pattern segment binds no parameter.
pub open spec fn segments_fit(path: Seq<Seq<char>>, pat: Seq<Seq<char>>) -> bool {
    path.len() == pat.len() && forall|i: int|
        0 <= i < pat.len() && !is_param(#[trigger] pat[i]) ==> path[i] == pat[i]
}

/// The parameters that the first `n` segments bind, each in turn (a later
/// segment with the same name replaces an earlier one).
pub open spec fn bind_params(path: Seq<Seq<char>>, pat: Seq<Seq<char>>, n: int) -> Seq<
    (Seq<char>, Seq<char>),
>
    decreases n,
{
    if n <= 0 {
        Seq::<(Seq<char>, Seq<char>)>::empty()
    } else {
        let prev = bind_params(path, pat, n - 1);
        if is_param(pat[n - 1]) {
            insert_pair(prev, param_name(pat[n - 1]), path[n - 1])
        } else {
            prev
        }
    }
}

/// The parameters that `pattern` binds in `path`, or `None` where the path
/// does not fit the pattern.
pub open spec fn match_params(path: Seq<char>, pattern: Seq<char>) -> Option<
    Seq<(Seq<char>, Seq<char>)>,
> {
    let ps = segments(path);
    let qs = segments(pattern);
    if segments_fit(ps, qs) {
        Some(bind_params(ps, qs, qs.len() as int))
    } else {
        None
    }
}

/// The method and pattern of each route, with its handler.
pub open spec fn table_view<H>(v: Seq<(String, String, H)>) -> Seq<(Seq<char>, Seq<char>, H)> {
    v.map_values(|r: (String, String, H)| (r.0@, r.1@, r.2))
}

/// The position of the route registered for `method` and `pattern`, or -1.
pub open spec fn route_pos<H>(t: Seq<(Seq<char>, Seq<char>, H)>, m: Seq<char>, p: Seq<char>) -> int
    decreases t.len(),
{
    if t.len() == 0 {
        -1
    } else if t.last().0 == m && t.last().1 == p {
        t.len() - 1
    } else {
        route_pos(t.drop_last(), m, p)
    }
}

/// The table after registering `h` for `m` and `p`: a route with the same
/// method and pattern takes the new handler where it stands, otherwise the
/// route goes at the end.
pub open spec fn register<H>(t: Seq<(Seq<char>, Seq<char>, H)>, m: Seq<char>, p: Seq<char>, h: H) -> Seq<
    (Seq<char>, Seq<char>, H),
> {
    let i = route_pos(t, m, p);
    if i >= 0 {
        t.update(i, (m, p, h))
    } else {
        t.push((m, p, h))
    }
}

/// The first route from position `i` on, in registration order, whose
/// method is `m` and whose pattern `path` fits.
pub open spec fn first_match<H>(t: Seq<(Seq<char>, Seq<char>, H)>, m: Seq<char>, path: Seq<char>, i: int) -> Option<
    int,
>
    decreases t.len() - i,
{
    if i < 0 || i >= t.len() {
        None
    } else if t[i].0 == m && match_params(path, t[i].1).is_some() {
        Some(i)
    } else {
        first_match(t, m, path, i + 1)
    }
}

/// What a request is answered with when no route takes it.
pub open spec fn is_not_found(r: Response, request: Request) -> bool {
    &&& r.head.status_code == StatusCode::NotFound
    &&& r.head.version == request.head.version
    &&& r.head.headers@ == seq![
        ("Content-Length"@, decimal(encode_utf8(StatusCode::NotFound.reason()).len())),
    ]
    &&& r.body matches Some(b) && b@ == encode_utf8(StatusCode::NotFound.reason())
}

/// How a router answers `request`: the handler of the first route that
/// takes it, given the parameters that route's pattern binds; or, where no
/// route takes it, the canonical "not found".
pub open spec fn routed<H: Handler>(t: Seq<(Seq<char>, Seq<char>, H)>, request: Request, r: Response) -> bool {
    match first_match(t, request.head.method@, request.head.path@, 0) {
        Some(i) => t[i].2.answers(request, match_params(request.head.path@, t[i].1).unwrap(), r),
        None => is_not_found(r, request),
    }
}

/// What answers the requests that a route takes: it is given the request and
/// the parameters that the route's pattern bound.
pub trait Handler {
    /// `r` is an answer that this handler may give to `request` with
    /// `params` bound. A handler that does not say what it answers makes no
    /// promise.
    open spec fn answers(&self, request: Request, params: Seq<(Seq<char>, Seq<char>)>, r: Response) -> bool {
        true
    }

    fn handle(&self, request: &Request, params: Fields) -> (r: Response)
        ensures
            self.answers(*request, params@, r),
    ;
}

/// Where no route has method `m`, no route takes a request with that
/// method, whatever its path.
pub proof fn lemma_unknown_method_not_routed<H>(
    t: Seq<(Seq<char>, Seq<char>, H)>,
    m: Seq<char>,
    path: Seq<char>,
    i: int,
)
    requires
        forall|j: int| 0 <= j < t.len() ==> (#[trigger] t[j]).0 != m,
    ensures
        first_match(t, m, path, i).is_none(),
    decreases t.len() - i,
{
    if 0 <= i < t.len() {
        lemma_unknown_method_not_routed(t, m, path, i + 1);
    }
}

/// A later segment of the same name has not bound over segment `i`.
proof fn lemma_bind_keeps(ps: Seq<Seq<char>>, qs: Seq<Seq<char>>, i: int, n: int)
    requires
        0 <= i < n <= qs.len(),
        is_param(qs[i]),
        forall|j: int|
            i < j < qs.len() && is_param(#[trigger] qs[j]) ==> param_name(qs[j]) != param_name(
                qs[i],
            ),
    ensures
        lookup(bind_params(ps, qs, n), param_name(qs[i])) == Some(ps[i]),
    decreases n,
{
    let prev = bind_params(ps, qs, n - 1);
    if n - 1 == i {
        crate::fields::lemma_lookup_insert(prev, param_name(qs[i]), ps[i], param_name(qs[i]));
    } else {
        lemma_bind_keeps(ps, qs, i, n - 1);
        if is_param(qs[n - 1]) {
            crate::fields::lemma_lookup_insert(
                prev,
                param_name(qs[n - 1]),
                ps[n - 1],
                param_name(qs[i]),
            );
        }
    }
}

/// Where a path fits a pattern, each parameter segment of the pattern binds
/// its name to the path segment at the same position (unless a later
/// segment binds the same name).
pub proof fn lemma_params_by_position(path: Seq<char>, pattern: Seq<char>, i: int)
    requires
        match_params(path, pattern).is_some(),
        0 <= i < segments(pattern).len(),
        is_param(segments(pattern)[i]),
        forall|j: int|
            i < j < segments(pattern).len() && is_param(#[trigger] segments(pattern)[j])
                ==> param_name(segments(pattern)[j]) != param_name(segments(pattern)[i]),
    ensures
        lookup(match_params(path, pattern).unwrap(), param_name(segments(pattern)[i])) == Some(
            segments(path)[i],
        ),
{
    let qs = segments(pattern);
    lemma_bind_keeps(segments(path), qs, i, qs.len() as int);
}

/// Where a path fits a pattern, every bound name is the name of one of the
/// pattern's parameter segments.
pub proof fn lemma_params_only_from_pattern(path: Seq<char>, pattern: Seq<char>, k: Seq<char>)
    requires
        match_params(path, pattern).is_some(),
        lookup(match_params(path, pattern).unwrap(), k).is_some(),
    ensures
        exists|j: int|
            0 <= j < segments(pattern).len() && is_param(#[trigger] segments(pattern)[j])
                && param_name(segments(pattern)[j]) == k,
{
    let qs = segments(pattern);
    lemma_bind_names(segments(path), qs, qs.len() as int, k);
}

proof fn lemma_bind_names(ps: Seq<Seq<char>>, qs: Seq<Seq<char>>, n: int, k: Seq<char>)
    requires
        n <= qs.len(),
        lookup(bind_params(ps, qs, n), k).is_some(),
    ensures
        exists|j: int| 0 <= j < n && is_param(#[trigger] qs[j]) && param_name(qs[j]) == k,
    decreases n,
{
    if n <= 0 {
        assert(bind_params(ps, qs, n) =~= Seq::<(Seq<char>, Seq<char>)>::empty());
    } else {
        let prev = bind_params(ps, qs, n - 1);
        if is_param(qs[n - 1]) && param_name(qs[n - 1]) == k {
            assert(is_param(qs[n - 1]));
        } else {
            if is_param(qs[n - 1]) {
                crate::fields::lemma_lookup_insert(prev, param_name(qs[n - 1]), ps[n - 1], k);
            }
            lemma_bind_names(ps, qs, n - 1, k);
        }
    }
}

/// The segments of a path.
pub fn path_segments(s: &str) -> (r: Vec<String>)
    ensures
        views(r@) == segments(s@),
{
    let cs = chars_of(s);
    let (lo, hi) = trim_range(&cs, '/');
    split_range(s, &cs, lo, hi, '/')
}

/// The name that a parameter segment binds.
fn segment_name(seg: &str) -> (r: String)
    ensures
        r@ == param_name(seg@),
{
    let cs = chars_of(seg);
    let lo = front_bound(&cs, ':');
    substring(seg, lo, cs.len())
}

/// Whether a pattern segment binds a parameter.
fn segment_is_param(seg: &str) -> (r: bool)
    ensures
        r == is_param(seg@),
{
    let cs = chars_of(seg);
    cs.len() > 0 && cs[0] == ':'
}

/// A table of routes, tried in the order in which they were registered.
pub struct Router<H> {
    routes: Vec<(String, String, H)>,
}

impl<H> View for Router<H> {
    type V = Seq<(Seq<char>, Seq<char>, H)>;

    closed spec fn view(&self) -> Seq<(Seq<char>, Seq<char>, H)> {
        table_view(self.routes@)
    }
}

impl<H> Router<H> {
    pub fn new() -> (r: Router<H>)
        ensures
            r@ == Seq::<(Seq<char>, Seq<char>, H)>::empty(),
    {
        let r = Router { routes: Vec::new() };
        assert(r@ =~= Seq::<(Seq<char>, Seq<char>, H)>::empty());
        r
    }

    /// Registers `handler` for `method` and `path_pattern`; registering the
    /// same method and pattern again replaces the handler.
    pub fn add_route(&mut self, method: &str, path_pattern: &str, handler: H)
        ensures
            final(self)@ == register(old(self)@, method@, path_pattern@, handler),
    {
        let ghost t = self@;
        let mut i: usize = self.routes.len();
        assert(t.subrange(0, i as int) =~= t);
        while i > 0
            invariant
                t == self@,
                t == old(self)@,
                i <= t.len(),
                route_pos(t, method@, path_pattern@) == route_pos(
                    t.subrange(0, i as int),
                    method@,
                    path_pattern@,
                ),
            decreases i,
        {
            let ghost pre = t.subrange(0, i as int);
            assert(pre.drop_last() =~= t.subrange(0, i - 1));
            assert(pre.last() == t[i - 1]);
            let same = str_eq(self.routes[i - 1].0.as_str(), method) && str_eq(
                self.routes[i - 1].1.as_str(),
                path_pattern,
            );
            if same {
                assert(route_pos(t, method@, path_pattern@) == i - 1);
                let m = String::from_str(method);
                let p = String::from_str(path_pattern);
                self.routes.set(i - 1, (m, p, handler));
                assert(self@ =~= register(t, method@, path_pattern@, handler));
                return;
            }
            i -= 1;
        }
        let m = String::from_str(method);
        let p = String::from_str(path_pattern);
        self.routes.push((m, p, handler));
        assert(self@ =~= register(t, method@, path_pattern@, handler));
    }

    /// The parameters that `pattern` binds in `path`, or `None` where the
    /// path does not fit the pattern.
    pub fn match_and_extract_params(path: &str, pattern: &str) -> (r: Option<Fields>)
        ensures
            match r {
                Some(f) => match_params(path@, pattern@) == Some(f@),
                None => match_params(path@, pattern@).is_none(),
            },
    {
        let path_parts = path_segments(path);
        let pattern_parts = path_segments(pattern);
        let ghost ps = segments(path@);
        let ghost qs = segments(pattern@);
        if path_parts.len() != pattern_parts.len() {
            return None;
        }
        let mut params = Fields::new();
        let n = pattern_parts.len();
        let mut i: usize = 0;
        while i < n
            invariant
                ps == segments(path@),
                qs == segments(pattern@),
                views(path_parts@) == ps,
                views(pattern_parts@) == qs,
                n == qs.len(),
                n == ps.len(),
                i <= n,
                params@ == bind_params(ps, qs, i as int),
                forall|j: int| 0 <= j < i && !is_param(#[trigger] qs[j]) ==> ps[j] == qs[j],
            decreases n - i,
        {
            let pat = pattern_parts[i].as_str();
            let seg = path_parts[i].as_str();
            assert(qs[i as int] == pat@);
            assert(ps[i as int] == seg@);
            if segment_is_param(pat) {
                let key = segment_name(pat);
                let value = String::from_str(seg);
                params.insert(key, value);
            } else if !str_eq(seg, pat) {
                assert(!is_param(qs[i as int]) && ps[i as int] != qs[i as int]);
                assert(!segments_fit(ps, qs));
                return None;
            }
            i += 1;
        }
        Some(params)
    }

    /// The first route in registration order whose method is `method` and
    /// whose pattern `path` fits, with the parameters it binds.
    pub fn find_route(&self, method: &str, path: &str) -> (r: Option<(usize, Fields)>)
        ensures
            match r {
                Some((i, f)) => first_match(self@, method@, path@, 0) == Some(i as int) && i
                    < self@.len() && match_params(path@, self@[i as int].1) == Some(f@),
                None => first_match(self@, method@, path@, 0).is_none(),
            },
    {
        let n = self.routes.len();
        let mut i: usize = 0;
        while i < n
            invariant
                n == self@.len(),
                i <= n,
                first_match(self@, method@, path@, 0) == first_match(self@, method@, path@, i as int),
            decreases n - i,
        {
            assert(self@[i as int].0 == self.routes@[i as int].0@);
            assert(self@[i as int].1 == self.routes@[i as int].1@);
            if str_eq(self.routes[i].0.as_str(), method) {
                match Self::match_and_extract_params(path, self.routes[i].1.as_str()) {
                    Some(f) => {
                        return Some((i, f));
                    },
                    None => {},
                }
            }
            i += 1;
        }
        None
    }

    /// The canonical answer to a request that no route takes: status 404,
    /// the request's version, and the reason phrase as body.
    pub fn not_found(request: &Request) -> (r: Response)
        ensures
            is_not_found(r, *request),
    {
        let body = StatusCode::NOT_FOUND.reason_phrase().as_bytes_vec();
        let mut head = Parts::new(StatusCode::NOT_FOUND, request.head.version);
        head.headers.insert(String::from_str("Content-Length"), decimal_string(body.len()));
        assert(head.headers@ =~= seq![("Content-Length"@, decimal(body@.len()))]);
        Response::new(head, Some(body))
    }
}

impl<H: Handler> Router<H> {
    /// Hands the request to the first route that takes it, or answers it
    /// as not found.
    pub fn route(&self, request: &Request) -> (r: Response)
        ensures
            routed(self@, *request, r),
    {
        match self.find_route(request.head.method.as_str(), request.head.path.as_str()) {
            Some((i, params)) => {
                assert(self@[i as int].2 == self.routes@[i as int].2);
                self.routes[i].2.handle(request, params)
            },
            None => Self::not_found(request),
        }
    }
}

} // verus!
