//! The router: which operation a method and a path belong to, and what the
//! path's parameters are.

use crate::message::Method;
use crate::path::{
    bindings, capture_segment, captures, concrete_path, concrete_segments, distinct_names,
    fits, lemma_concrete_segments, lemma_join_segments, lemma_split_pieces,
    lemma_written_segment, literals_avoid, param_count, parse_segment, parse_template,
    path_segments, read_segment, rows, Segment, segment_matches, SegmentView, SLASH,
    split_from, template_view,
};
use crate::params::Params;
use crate::text::{bytes_equal, str_equal};
use vstd::prelude::*;
use vstd::utf8::encode_utf8;

verus! {

/// One registered operation, as a mathematical value.
pub struct RouteView {
    pub method: Method,
    pub template: Seq<SegmentView>,
}

/// One registered operation. Its identifier is its place in the router.
#[derive(Debug, Clone)]
pub struct Route {
    method: Method,
    template: Vec<Segment>,
}

impl View for Route {
    type V = RouteView;

    closed spec fn view(&self) -> RouteView {
        RouteView { method: self.method, template: template_view(self.template@) }
    }
}

/// Why a template was not registered.
#[derive(Debug, Clone, Copy, PartialEq, Eq, Structural)]
pub enum RouteConflict {
    /// The text is not a path template.
    InvalidTemplate,
    /// A template of the same method accepts the same paths segment for
    /// segment: same literals, parameters in the same places.
    Duplicate,
}

/// No registered operation accepts the method and path.
#[derive(Debug, Clone, Copy, PartialEq, Eq, Structural)]
pub struct NotFound;

/// The parameters captured from a path, by name, in the order of the
/// template.
pub type PathParams = Params;

/// The outcome of a successful resolution.
#[derive(Debug, Clone, PartialEq, Eq)]
pub struct RouteMatch {
    /// The identifier that `register` returned for the operation.
    pub operation: usize,
    pub params: PathParams,
}

/// Whether two templates accept the same paths segment for segment: equal
/// literals in the same places, parameters in the same places, whatever the
/// parameters are called.
pub open spec fn same_shape(a: Seq<SegmentView>, b: Seq<SegmentView>) -> bool {
    &&& a.len() == b.len()
    &&& forall|i: int|
        0 <= i < a.len() ==> match (#[trigger] a[i], b[i]) {
            (SegmentView::Literal(x), SegmentView::Literal(y)) => x == y,
            (SegmentView::Param(_), SegmentView::Param(_)) => true,
            _ => false,
        }
}

/// Whether template `a` takes precedence over template `b`: at the first
/// segment where one has a literal and the other a parameter, `a` has the
/// literal.
pub open spec fn outranks(a: Seq<SegmentView>, b: Seq<SegmentView>) -> bool {
    &&& a.len() == b.len()
    &&& exists|k: int|
        0 <= k < a.len() && #[trigger] first_difference(a, b, k) && a[k] is Literal
}

/// Whether `k` is the first place where one template has a literal and the
/// other a parameter.
pub open spec fn first_difference(a: Seq<SegmentView>, b: Seq<SegmentView>, k: int) -> bool {
    &&& 0 <= k < a.len()
    &&& k < b.len()
    &&& (a[k] is Literal) != (b[k] is Literal)
    &&& forall|j: int| 0 <= j < k ==> ((#[trigger] a[j] is Literal) == (b[j] is Literal))
}

/// Whether a route is registered for the method and accepts the path.
pub open spec fn accepts(route: RouteView, method: Method, segments: Seq<Seq<u8>>) -> bool {
    route.method == method && fits(route.template, segments)
}

/// Whether the route at `i` is the one that a method and path resolve to: it
/// accepts them, and no route that accepts them takes precedence over it.
pub open spec fn is_resolution(
    routes: Seq<RouteView>,
    method: Method,
    segments: Seq<Seq<u8>>,
    i: int,
) -> bool {
    &&& 0 <= i < routes.len()
    &&& accepts(routes[i], method, segments)
    &&& forall|j: int|
        0 <= j < routes.len() && accepts(#[trigger] routes[j], method, segments) ==> !outranks(
            routes[j].template,
            routes[i].template,
        )
}

/// Whether no route accepts a method and path.
pub open spec fn unrouted(routes: Seq<RouteView>, method: Method, segments: Seq<Seq<u8>>) -> bool {
    forall|j: int| 0 <= j < routes.len() ==> !accepts(#[trigger] routes[j], method, segments)
}

/// Whether no literal of a template holds a slash.
pub open spec fn slash_free(template: Seq<SegmentView>) -> bool {
    literals_avoid(template, SLASH)
}

/// What holds of every router: each template has a segment, no literal holds
/// a slash, no template names a parameter twice, and no two routes of one
/// method have the same shape.
pub open spec fn well_formed(routes: Seq<RouteView>) -> bool {
    &&& forall|i: int|
        0 <= i < routes.len() ==> {
            &&& (#[trigger] routes[i]).template.len() > 0
            &&& distinct_names(routes[i].template)
            &&& slash_free(routes[i].template)
        }
    &&& forall|i: int, j: int|
        0 <= i < j < routes.len() && (#[trigger] routes[i]).method == (#[trigger] routes[j]).method
            ==> !same_shape(routes[i].template, routes[j].template)
}

/// The registered operations of a service. It is filled once and read
/// thereafter.
#[derive(Debug, Clone)]
pub struct Router {
    routes: Vec<Route>,
}

impl View for Router {
    type V = Seq<RouteView>;

    closed spec fn view(&self) -> Seq<RouteView> {
        Seq::new(self.routes@.len(), |i: int| self.routes@[i]@)
    }
}

/// Reads a template text.
pub fn read_template(text: &[u8]) -> (template: Option<Vec<Segment>>)
    ensures
        match template {
            Some(t) => parse_template(text@) == Some(template_view(t@)),
            None => parse_template(text@) is None,
        },
{
    if text.len() == 0 || text[0] != SLASH {
        return None;
    }
    let pieces = split_from(text, 1, SLASH);
    let ghost parts = rows(pieces@);
    let mut template: Vec<Segment> = Vec::new();
    let mut i: usize = 0;
    while i < pieces.len()
        invariant
            0 <= i <= pieces.len(),
            parts == rows(pieces@),
            path_segments(text@) == Some(parts),
            template@.len() == i,
            forall|j: int|
                0 <= j < i ==> (#[trigger] parse_segment(parts[j])) == Some(template@[j]@),
        decreases pieces.len() - i,
    {
        assert(parts[i as int] == pieces@[i as int]@);
        match read_segment(&pieces[i]) {
            Some(segment) => {
                template.push(segment);
            },
            None => {
                assert(parse_segment(parts[i as int]) is None);
                return None;
            },
        }
        i += 1;
    }
    let ghost parsed = Seq::new(parts.len(), |i: int| parse_segment(parts[i])->0);
    assert(parsed =~= template_view(template@)) by {
        assert forall|j: int| 0 <= j < parsed.len() implies parsed[j] == template_view(
            template@,
        )[j] by {
            assert(parse_segment(parts[j]) == Some(template@[j]@));
        }
    }
    if names_are_distinct(&template) {
        Some(template)
    } else {
        None
    }
}

fn names_are_distinct(template: &Vec<Segment>) -> (distinct: bool)
    ensures
        distinct == distinct_names(template_view(template@)),
{
    let ghost t = template_view(template@);
    let mut j: usize = 0;
    while j < template.len()
        invariant
            0 <= j <= template.len(),
            t == template_view(template@),
            forall|a: int, b: int|
                0 <= a < b < j && #[trigger] t[a] is Param && #[trigger] t[b] is Param
                    ==> t[a]->Param_0 != t[b]->Param_0,
        decreases template.len() - j,
    {
        let mut i: usize = 0;
        while i < j
            invariant
                0 <= i <= j < template.len(),
                t == template_view(template@),
                forall|a: int|
                    0 <= a < i && #[trigger] t[a] is Param && t[j as int] is Param
                        ==> t[a]->Param_0 != t[j as int]->Param_0,
            decreases j - i,
        {
            assert(t[i as int] == template@[i as int]@);
            assert(t[j as int] == template@[j as int]@);
            match (&template[i], &template[j]) {
                (Segment::Param(x), Segment::Param(y)) => {
                    if str_equal(x.as_str(), y.as_str()) {
                        return false;
                    }
                },
                _ => {},
            }
            i += 1;
        }
        j += 1;
    }
    true
}

fn shapes_agree(a: &Vec<Segment>, b: &Vec<Segment>) -> (same: bool)
    ensures
        same == same_shape(template_view(a@), template_view(b@)),
{
    if a.len() != b.len() {
        return false;
    }
    let ghost x = template_view(a@);
    let ghost y = template_view(b@);
    let mut i: usize = 0;
    while i < a.len()
        invariant
            0 <= i <= a.len(),
            a.len() == b.len(),
            x == template_view(a@),
            y == template_view(b@),
            forall|j: int|
                0 <= j < i ==> match (#[trigger] x[j], y[j]) {
                    (SegmentView::Literal(p), SegmentView::Literal(q)) => p == q,
                    (SegmentView::Param(_), SegmentView::Param(_)) => true,
                    _ => false,
                },
        decreases a.len() - i,
    {
        assert(x[i as int] == a@[i as int]@);
        assert(y[i as int] == b@[i as int]@);
        let agree = match (&a[i], &b[i]) {
            (Segment::Literal(p), Segment::Literal(q)) => bytes_equal(p.as_slice(), q.as_slice()),
            (Segment::Param(_), Segment::Param(_)) => true,
            _ => false,
        };
        if !agree {
            return false;
        }
        i += 1;
    }
    true
}

fn takes_precedence(a: &Vec<Segment>, b: &Vec<Segment>) -> (wins: bool)
    ensures
        wins == outranks(template_view(a@), template_view(b@)),
{
    if a.len() != b.len() {
        return false;
    }
    let ghost x = template_view(a@);
    let ghost y = template_view(b@);
    let mut i: usize = 0;
    while i < a.len()
        invariant
            0 <= i <= a.len(),
            a.len() == b.len(),
            x == template_view(a@),
            y == template_view(b@),
            forall|j: int| 0 <= j < i ==> ((#[trigger] x[j] is Literal) == (y[j] is Literal)),
        decreases a.len() - i,
    {
        assert(x[i as int] == a@[i as int]@);
        assert(y[i as int] == b@[i as int]@);
        match (&a[i], &b[i]) {
            (Segment::Literal(_), Segment::Param(_)) => {
                assert(first_difference(x, y, i as int));
                return true;
            },
            (Segment::Param(_), Segment::Literal(_)) => {
                assert forall|k: int| 0 <= k < x.len() && #[trigger] first_difference(x, y, k)
                    implies !(x[k] is Literal) by {
                    if k < i {
                        assert((x[k] is Literal) == (y[k] is Literal));
                    } else if k > i {
                        assert((x[i as int] is Literal) == (y[i as int] is Literal));
                    }
                }
                return false;
            },
            _ => {},
        }
        i += 1;
    }
    assert forall|k: int| 0 <= k < x.len() implies !#[trigger] first_difference(x, y, k) by {
        assert((x[k] is Literal) == (y[k] is Literal));
    }
    false
}

fn template_accepts(template: &Vec<Segment>, segments: &Vec<Vec<u8>>) -> (ok: bool)
    ensures
        ok == fits(template_view(template@), rows(segments@)),
{
    if template.len() != segments.len() {
        return false;
    }
    let ghost t = template_view(template@);
    let ghost s = rows(segments@);
    let mut i: usize = 0;
    while i < template.len()
        invariant
            0 <= i <= template.len(),
            template.len() == segments.len(),
            t == template_view(template@),
            s == rows(segments@),
            forall|j: int| 0 <= j < i ==> segment_matches(#[trigger] t[j], s[j]),
        decreases template.len() - i,
    {
        assert(t[i as int] == template@[i as int]@);
        assert(s[i as int] == segments@[i as int]@);
        let ok = match &template[i] {
            Segment::Literal(bytes) => bytes_equal(bytes.as_slice(), segments[i].as_slice()),
            Segment::Param(_) => capture_segment(segments[i].as_slice()).is_some(),
        };
        if !ok {
            return false;
        }
        i += 1;
    }
    true
}

fn read_captures(template: &Vec<Segment>, segments: &Vec<Vec<u8>>) -> (params: PathParams)
    requires
        fits(template_view(template@), rows(segments@)),
    ensures
        params@ == captures(template_view(template@), rows(segments@)),
{
    let ghost t = template_view(template@);
    let ghost s = rows(segments@);
    let mut params = PathParams::new();
    let mut i: usize = 0;
    assert(t.take(0) =~= Seq::<SegmentView>::empty());
    while i < template.len()
        invariant
            0 <= i <= template.len(),
            template.len() == segments.len(),
            t == template_view(template@),
            s == rows(segments@),
            fits(t, s),
            params@ == captures(t.take(i as int), s.take(i as int)),
        decreases template.len() - i,
    {
        assert(t[i as int] == template@[i as int]@);
        assert(s[i as int] == segments@[i as int]@);
        assert(t.take(i + 1).drop_last() =~= t.take(i as int));
        assert(s.take(i + 1).drop_last() =~= s.take(i as int));
        assert(t.take(i + 1).last() == t[i as int]);
        assert(s.take(i + 1).last() == s[i as int]);
        assert(segment_matches(t[i as int], s[i as int]));
        match &template[i] {
            Segment::Param(name) => {
                match capture_segment(segments[i].as_slice()) {
                    Some(value) => {
                        params.push(name.clone(), value);
                    },
                    None => {},
                }
            },
            Segment::Literal(_) => {},
        }
        i += 1;
    }
    assert(t.take(i as int) =~= t);
    assert(s.take(i as int) =~= s);
    params
}

impl Router {
    /// A router without operations.
    pub fn new() -> (router: Router)
        ensures
            router@ == Seq::<RouteView>::empty(),
            well_formed(router@),
    {
        let router = Router { routes: Vec::new() };
        assert(router@ =~= Seq::<RouteView>::empty());
        router
    }

    /// The number of registered operations.
    pub fn len(&self) -> (n: usize)
        ensures
            n == self@.len(),
    {
        self.routes.len()
    }

    /// Registers an operation under a method and a template that is given as
    /// text, such as `/pets/{id}`, and returns its identifier. Nothing is
    /// registered where the text is not a template or where the method has a
    /// template of the same shape already.
    pub fn register(&mut self, method: Method, path_template: &str) -> (r: Result<
        usize,
        RouteConflict,
    >)
        ensures
            match r {
                Ok(id) => {
                    &&& parse_template(encode_utf8(path_template@)) is Some
                    &&& id == old(self)@.len()
                    &&& final(self)@ == old(self)@.push(
                        RouteView {
                            method,
                            template: parse_template(encode_utf8(path_template@))->0,
                        },
                    )
                },
                Err(RouteConflict::InvalidTemplate) => {
                    &&& parse_template(encode_utf8(path_template@)) is None
                    &&& final(self)@ == old(self)@
                },
                Err(RouteConflict::Duplicate) => {
                    &&& parse_template(encode_utf8(path_template@)) is Some
                    &&& exists|j: int|
                        0 <= j < old(self)@.len() && (#[trigger] old(self)@[j]).method == method
                            && same_shape(
                            old(self)@[j].template,
                            parse_template(encode_utf8(path_template@))->0,
                        )
                    &&& final(self)@ == old(self)@
                },
            },
            well_formed(old(self)@) ==> well_formed(final(self)@),
    {
        match read_template(path_template.as_bytes()) {
            None => Err(RouteConflict::InvalidTemplate),
            Some(template) => {
                proof {
                    lemma_parsed_template(encode_utf8(path_template@));
                }
                self.register_template(method, template)
            },
        }
    }

    /// Registers an operation under a method and a template that is given by
    /// its segments.
    pub fn register_template(&mut self, method: Method, template: Vec<Segment>) -> (r: Result<
        usize,
        RouteConflict,
    >)
        ensures
            match r {
                Ok(id) => {
                    &&& id == old(self)@.len()
                    &&& final(self)@ == old(self)@.push(
                        RouteView { method, template: template_view(template@) },
                    )
                    &&& forall|j: int|
                        0 <= j < old(self)@.len() && (#[trigger] old(self)@[j]).method == method
                            ==> !same_shape(old(self)@[j].template, template_view(template@))
                },
                Err(RouteConflict::InvalidTemplate) => false,
                Err(RouteConflict::Duplicate) => {
                    &&& exists|j: int|
                        0 <= j < old(self)@.len() && (#[trigger] old(self)@[j]).method == method
                            && same_shape(old(self)@[j].template, template_view(template@))
                    &&& final(self)@ == old(self)@
                },
            },
            well_formed(old(self)@) && template@.len() > 0 && distinct_names(
                template_view(template@),
            ) && slash_free(template_view(template@)) ==> well_formed(final(self)@),
    {
        let ghost t = template_view(template@);
        let mut i: usize = 0;
        while i < self.routes.len()
            invariant
                0 <= i <= self.routes.len(),
                *self == *old(self),
                t == template_view(template@),
                forall|j: int|
                    0 <= j < i && (#[trigger] self@[j]).method == method ==> !same_shape(
                        self@[j].template,
                        t,
                    ),
            decreases self.routes.len() - i,
        {
            assert(self@[i as int] == self.routes@[i as int]@);
            if self.routes[i].method == method && shapes_agree(&self.routes[i].template, &template)
            {
                return Err(RouteConflict::Duplicate);
            }
            i += 1;
        }
        let id = self.routes.len();
        self.routes.push(Route { method, template });
        assert(self@ =~= old(self)@.push(RouteView { method, template: t }));
        proof {
            if well_formed(old(self)@) && t.len() > 0 && distinct_names(t) && slash_free(t) {
                let routes = self@;
                assert forall|a: int, b: int|
                    0 <= a < b < routes.len() && (#[trigger] routes[a]).method == (
                    #[trigger] routes[b]).method implies !same_shape(
                    routes[a].template,
                    routes[b].template,
                ) by {
                    if b < old(self)@.len() {
                        assert(routes[a] == old(self)@[a]);
                        assert(routes[b] == old(self)@[b]);
                    } else {
                        assert(routes[a] == old(self)@[a]);
                    }
                }
                assert forall|a: int| 0 <= a < routes.len() implies {
                    &&& (#[trigger] routes[a]).template.len() > 0
                    &&& distinct_names(routes[a].template)
                    &&& slash_free(routes[a].template)
                } by {
                    if a < old(self)@.len() {
                        assert(routes[a] == old(self)@[a]);
                    }
                }
            }
        }
        Ok(id)
    }

    /// Finds the operation that a method and a path belong to. The path is
    /// taken as bytes; a query, if the request had one, is not part of it.
    pub fn resolve_bytes(&self, method: Method, path: &[u8]) -> (r: Result<RouteMatch, NotFound>)
        ensures
            match r {
                Ok(found) => {
                    &&& path_segments(path@) is Some
                    &&& is_resolution(self@, method, path_segments(path@)->0, found.operation as int)
                    &&& found.params@ == captures(
                        self@[found.operation as int].template,
                        path_segments(path@)->0,
                    )
                },
                Err(_) => path_segments(path@) is None || unrouted(
                    self@,
                    method,
                    path_segments(path@)->0,
                ),
            },
            path_segments(path@) is None || unrouted(self@, method, path_segments(path@)->0)
                ==> r is Err,
    {
        if path.len() == 0 || path[0] != SLASH {
            return Err(NotFound);
        }
        let segments = split_from(path, 1, SLASH);
        let ghost s = rows(segments@);
        let ghost routes = self@;
        let mut best: Option<usize> = None;
        let mut i: usize = 0;
        while i < self.routes.len()
            invariant
                0 <= i <= self.routes.len(),
                routes == self@,
                s == rows(segments@),
                match best {
                    None => forall|j: int| 0 <= j < i ==> !accepts(#[trigger] routes[j], method, s),
                    Some(b) => {
                        &&& 0 <= b < i
                        &&& accepts(routes[b as int], method, s)
                        &&& forall|j: int|
                            0 <= j < i && accepts(#[trigger] routes[j], method, s) ==> !outranks(
                                routes[j].template,
                                routes[b as int].template,
                            )
                    },
                },
            decreases self.routes.len() - i,
        {
            assert(routes[i as int] == self.routes@[i as int]@);
            if self.routes[i].method == method && template_accepts(
                &self.routes[i].template,
                &segments,
            ) {
                match best {
                    None => {
                        proof {
                            lemma_outranks_irreflexive(routes[i as int].template);
                        }
                        best = Some(i);
                    },
                    Some(b) => {
                        assert(routes[b as int] == self.routes@[b as int]@);
                        if takes_precedence(&self.routes[i].template, &self.routes[b].template) {
                            proof {
                                lemma_outranks_irreflexive(routes[i as int].template);
                                assert forall|j: int|
                                    0 <= j < i + 1 && accepts(
                                        #[trigger] routes[j],
                                        method,
                                        s,
                                    ) implies !outranks(
                                    routes[j].template,
                                    routes[i as int].template,
                                ) by {
                                    if j < i && outranks(
                                        routes[j].template,
                                        routes[i as int].template,
                                    ) {
                                        lemma_outranks_transitive(
                                            routes[j].template,
                                            routes[i as int].template,
                                            routes[b as int].template,
                                        );
                                    }
                                }
                            }
                            best = Some(i);
                        }
                    },
                }
            }
            i += 1;
        }
        match best {
            None => Err(NotFound),
            Some(b) => {
                assert(routes[b as int] == self.routes@[b as int]@);
                let params = read_captures(&self.routes[b].template, &segments);
                Ok(RouteMatch { operation: b, params })
            },
        }
    }

    /// Finds the operation that a method and a path belong to.
    pub fn resolve(&self, method: Method, path: &str) -> (r: Result<RouteMatch, NotFound>)
        ensures
            match r {
                Ok(found) => {
                    &&& path_segments(encode_utf8(path@)) is Some
                    &&& is_resolution(
                        self@,
                        method,
                        path_segments(encode_utf8(path@))->0,
                        found.operation as int,
                    )
                    &&& found.params@ == captures(
                        self@[found.operation as int].template,
                        path_segments(encode_utf8(path@))->0,
                    )
                },
                Err(_) => path_segments(encode_utf8(path@)) is None || unrouted(
                    self@,
                    method,
                    path_segments(encode_utf8(path@))->0,
                ),
            },
            path_segments(encode_utf8(path@)) is None || unrouted(
                self@,
                method,
                path_segments(encode_utf8(path@))->0,
            ) ==> r is Err,
    {
        self.resolve_bytes(method, path.as_bytes())
    }
}

/// No template takes precedence over itself.
pub proof fn lemma_outranks_irreflexive(a: Seq<SegmentView>)
    ensures
        !outranks(a, a),
{
}

/// Precedence carries over: if `a` goes before `b` and `b` before `c`, then
/// `a` goes before `c`.
pub proof fn lemma_outranks_transitive(
    a: Seq<SegmentView>,
    b: Seq<SegmentView>,
    c: Seq<SegmentView>,
)
    requires
        outranks(a, b),
        outranks(b, c),
    ensures
        outranks(a, c),
{
    let k1 = choose|k: int| 0 <= k < a.len() && #[trigger] first_difference(a, b, k) && a[k] is Literal;
    let k2 = choose|k: int| 0 <= k < b.len() && #[trigger] first_difference(b, c, k) && b[k] is Literal;
    if k1 < k2 {
        assert((b[k1] is Literal) == (c[k1] is Literal));
        assert forall|j: int| 0 <= j < k1 implies ((#[trigger] a[j] is Literal) == (
        c[j] is Literal)) by {
            assert((a[j] is Literal) == (b[j] is Literal));
            assert((b[j] is Literal) == (c[j] is Literal));
        }
        assert(first_difference(a, c, k1));
    } else if k2 < k1 {
        assert((a[k2] is Literal) == (b[k2] is Literal));
        assert forall|j: int| 0 <= j < k2 implies ((#[trigger] a[j] is Literal) == (
        c[j] is Literal)) by {
            assert((a[j] is Literal) == (b[j] is Literal));
            assert((b[j] is Literal) == (c[j] is Literal));
        }
        assert(first_difference(a, c, k2));
    } else {
        assert(false);
    }
}

/// A template that was read from text has a segment, names no parameter
/// twice, and has no slash in a literal.
pub proof fn lemma_parsed_template(text: Seq<u8>)
    requires
        parse_template(text) is Some,
    ensures
        parse_template(text)->0.len() > 0,
        distinct_names(parse_template(text)->0),
        slash_free(parse_template(text)->0),
{
    let parts = path_segments(text)->0;
    let template = parse_template(text)->0;
    lemma_split_pieces(text.skip(1), SLASH);
    assert forall|i: int, k: int|
        0 <= i < template.len() && #[trigger] template[i] is Literal && 0 <= k
            < template[i]->Literal_0.len() implies #[trigger] template[i]->Literal_0[k]
        != SLASH by {
        assert(parse_segment(parts[i]) is Some);
        assert(template[i] == parse_segment(parts[i])->0);
        assert(template[i]->Literal_0 == parts[i]);
    }
}

/// Two templates of one length either have literals and parameters in the
/// same places, or differ first at some place.
proof fn lemma_compare_kinds(a: Seq<SegmentView>, b: Seq<SegmentView>, n: int) -> (k: int)
    requires
        a.len() == b.len(),
        0 <= n <= a.len(),
        forall|j: int| 0 <= j < n ==> ((#[trigger] a[j] is Literal) == (b[j] is Literal)),
    ensures
        n <= k <= a.len(),
        k < a.len() ==> first_difference(a, b, k),
        k == a.len() ==> forall|j: int|
            0 <= j < a.len() ==> ((#[trigger] a[j] is Literal) == (b[j] is Literal)),
    decreases a.len() - n,
{
    if n == a.len() {
        n
    } else if (a[n] is Literal) != (b[n] is Literal) {
        n
    } else {
        lemma_compare_kinds(a, b, n + 1)
    }
}

/// Of two templates that accept the same path, one takes precedence over the
/// other unless they have the same shape.
pub proof fn lemma_precedence_is_total(
    a: Seq<SegmentView>,
    b: Seq<SegmentView>,
    segments: Seq<Seq<u8>>,
)
    requires
        fits(a, segments),
        fits(b, segments),
    ensures
        same_shape(a, b) || outranks(a, b) || outranks(b, a),
{
    let k = lemma_compare_kinds(a, b, 0);
    if k < a.len() {
        if a[k] is Literal {
            assert(first_difference(a, b, k));
        } else {
            assert(first_difference(b, a, k)) by {
                assert forall|j: int| 0 <= j < k implies ((#[trigger] b[j] is Literal) == (
                a[j] is Literal)) by {
                    assert((a[j] is Literal) == (b[j] is Literal));
                }
            }
        }
    } else {
        assert forall|i: int| 0 <= i < a.len() implies match (#[trigger] a[i], b[i]) {
            (SegmentView::Literal(x), SegmentView::Literal(y)) => x == y,
            (SegmentView::Param(_), SegmentView::Param(_)) => true,
            _ => false,
        } by {
            assert((a[i] is Literal) == (b[i] is Literal));
            assert(segment_matches(a[i], segments[i]));
            assert(segment_matches(b[i], segments[i]));
        }
    }
}

/// A method and a path resolve to at most one route.
pub proof fn lemma_resolution_is_unique(
    routes: Seq<RouteView>,
    method: Method,
    segments: Seq<Seq<u8>>,
    i: int,
    j: int,
)
    requires
        well_formed(routes),
        is_resolution(routes, method, segments, i),
        is_resolution(routes, method, segments, j),
    ensures
        i == j,
{
    if i != j {
        lemma_precedence_is_total(routes[i].template, routes[j].template, segments);
        lemma_precedence_is_total(routes[j].template, routes[i].template, segments);
        if i < j {
            assert(!same_shape(routes[i].template, routes[j].template));
        } else {
            assert(!same_shape(routes[j].template, routes[i].template));
        }
    }
}

/// Among the first `n` routes, finds one that accepts the method and path
/// and over which none of them takes precedence, if any of them accepts.
proof fn lemma_best_of_prefix(
    routes: Seq<RouteView>,
    method: Method,
    segments: Seq<Seq<u8>>,
    n: int,
) -> (best: Option<int>)
    requires
        0 <= n <= routes.len(),
    ensures
        match best {
            None => forall|j: int| 0 <= j < n ==> !accepts(#[trigger] routes[j], method, segments),
            Some(b) => {
                &&& 0 <= b < n
                &&& accepts(routes[b], method, segments)
                &&& forall|j: int|
                    0 <= j < n && accepts(#[trigger] routes[j], method, segments) ==> !outranks(
                        routes[j].template,
                        routes[b].template,
                    )
            },
        },
    decreases n,
{
    if n == 0 {
        None
    } else {
        let before = lemma_best_of_prefix(routes, method, segments, n - 1);
        let last = n - 1;
        if !accepts(routes[last], method, segments) {
            before
        } else {
            lemma_outranks_irreflexive(routes[last].template);
            match before {
                None => Some(last),
                Some(b) => {
                    if outranks(routes[last].template, routes[b].template) {
                        assert forall|j: int|
                            0 <= j < n && accepts(
                                #[trigger] routes[j],
                                method,
                                segments,
                            ) implies !outranks(routes[j].template, routes[last].template) by {
                            if j < last && outranks(routes[j].template, routes[last].template) {
                                lemma_outranks_transitive(
                                    routes[j].template,
                                    routes[last].template,
                                    routes[b].template,
                                );
                            }
                        }
                        Some(last)
                    } else {
                        Some(b)
                    }
                },
            }
        }
    }
}

/// A method and a path that some route accepts resolve to a route.
pub proof fn lemma_resolution_exists(
    routes: Seq<RouteView>,
    method: Method,
    segments: Seq<Seq<u8>>,
)
    requires
        !unrouted(routes, method, segments),
    ensures
        exists|k: int| is_resolution(routes, method, segments, k),
{
    let best = lemma_best_of_prefix(routes, method, segments, routes.len() as int);
    assert(is_resolution(routes, method, segments, best->0));
}

/// Resolution does not depend on the order of registration: two routers
/// that hold the same routes resolve a method and a path to the same route.
pub proof fn lemma_resolution_ignores_order(
    a: Seq<RouteView>,
    b: Seq<RouteView>,
    method: Method,
    segments: Seq<Seq<u8>>,
    i: int,
    j: int,
)
    requires
        well_formed(b),
        forall|x: int| 0 <= x < a.len() ==> exists|y: int| 0 <= y < b.len() && b[y] == #[trigger] a[x],
        forall|y: int| 0 <= y < b.len() ==> exists|x: int| 0 <= x < a.len() && a[x] == #[trigger] b[y],
        is_resolution(a, method, segments, i),
        is_resolution(b, method, segments, j),
    ensures
        a[i] == b[j],
{
    let y = choose|y: int| 0 <= y < b.len() && b[y] == a[i];
    assert forall|z: int|
        0 <= z < b.len() && accepts(#[trigger] b[z], method, segments) implies !outranks(
        b[z].template,
        b[y].template,
    ) by {
        let x = choose|x: int| 0 <= x < a.len() && a[x] == b[z];
        assert(accepts(a[x], method, segments));
    }
    lemma_resolution_is_unique(b, method, segments, y, j);
}

/// Routing is determined: the path that a registered template gives for
/// arguments that are not empty falls into the segments that were written,
/// some route accepts it, and the route that it resolves to is the
/// registered one, with exactly the arguments as its parameters, unless a
/// route of the same method with a literal in place of a parameter accepts
/// the path as well and takes precedence.
pub proof fn lemma_registered_path_resolves(
    routes: Seq<RouteView>,
    i: int,
    args: Seq<Seq<char>>,
    k: int,
)
    requires
        well_formed(routes),
        0 <= i < routes.len(),
        args.len() == param_count(routes[i].template),
        forall|n: int| 0 <= n < args.len() ==> (#[trigger] args[n]).len() > 0,
        is_resolution(
            routes,
            routes[i].method,
            concrete_segments(routes[i].template, args),
            k,
        ),
    ensures
        path_segments(concrete_path(routes[i].template, args)) == Some(
            concrete_segments(routes[i].template, args),
        ),
        accepts(routes[i], routes[i].method, concrete_segments(routes[i].template, args)),
        k == i || outranks(routes[k].template, routes[i].template),
        k == i ==> captures(routes[k].template, concrete_segments(routes[i].template, args))
            == bindings(routes[i].template, args),
{
    let template = routes[i].template;
    let segments = concrete_segments(template, args);
    lemma_concrete_path(template, args);
    if k != i {
        lemma_precedence_is_total(routes[k].template, template, segments);
        if k < i {
            assert(!same_shape(routes[k].template, routes[i].template));
        } else {
            lemma_precedence_is_total(template, routes[k].template, segments);
            assert(!same_shape(routes[i].template, routes[k].template));
        }
    }
}

/// The path that a template gives for arguments that are not empty falls
/// into the segments that were written, and the template accepts them and
/// captures the arguments.
pub proof fn lemma_concrete_path(template: Seq<SegmentView>, args: Seq<Seq<char>>)
    requires
        template.len() > 0,
        slash_free(template),
        args.len() == param_count(template),
        forall|n: int| 0 <= n < args.len() ==> (#[trigger] args[n]).len() > 0,
    ensures
        path_segments(concrete_path(template, args)) == Some(concrete_segments(template, args)),
        fits(template, concrete_segments(template, args)),
        captures(template, concrete_segments(template, args)) == bindings(template, args),
{
    let segments = concrete_segments(template, args);
    lemma_concrete_segments(template, args);
    lemma_concrete_segments_slash_free(template, args);
    lemma_join_segments(segments);
}

/// No segment that a template with slash-free literals gives for arguments
/// that are not empty holds a slash.
proof fn lemma_concrete_segments_slash_free(template: Seq<SegmentView>, args: Seq<Seq<char>>)
    requires
        slash_free(template),
        args.len() == param_count(template),
        forall|n: int| 0 <= n < args.len() ==> (#[trigger] args[n]).len() > 0,
    ensures
        forall|i: int, k: int|
            0 <= i < concrete_segments(template, args).len() && 0 <= k < (
            #[trigger] concrete_segments(template, args)[i]).len() ==> #[trigger] concrete_segments(
                template,
                args,
            )[i][k] != SLASH,
    decreases template.len(),
{
    if template.len() > 0 {
        let front = template.drop_last();
        let segments = concrete_segments(template, args);
        assert(slash_free(front)) by {
            assert forall|i: int, k: int|
                0 <= i < front.len() && #[trigger] front[i] is Literal && 0 <= k
                    < front[i]->Literal_0.len() implies #[trigger] front[i]->Literal_0[k]
                != SLASH by {
                assert(template[i] is Literal);
                assert(template[i]->Literal_0[k] != SLASH);
            }
        }
        let rest = if template.last() is Param {
            args.drop_last()
        } else {
            args
        };
        assert forall|n: int| 0 <= n < rest.len() implies (#[trigger] rest[n]).len() > 0 by {
            assert(args[n].len() > 0);
        }
        lemma_concrete_segments_slash_free(front, rest);
        let before = concrete_segments(front, rest);
        assert(segments.drop_last() =~= before);
        assert forall|i: int, k: int|
            0 <= i < segments.len() && 0 <= k < (
            #[trigger] segments[i]).len() implies #[trigger] segments[i][k] != SLASH by {
            if i < before.len() {
                assert(segments[i] == before[i]);
                assert(before[i][k] != SLASH);
            } else {
                match template.last() {
                    SegmentView::Literal(bytes) => {
                        assert(template[template.len() - 1] is Literal);
                        assert(template[template.len() - 1]->Literal_0[k] != SLASH);
                    },
                    SegmentView::Param(_) => {
                        assert(args[args.len() - 1].len() > 0);
                        lemma_written_segment(args.last());
                    },
                }
            }
        }
    }
}

} // verus!
