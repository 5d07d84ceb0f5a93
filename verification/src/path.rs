//! Paths and path templates: how a path falls into segments, and what a
//! template asks of each segment.

use crate::percent::{
    decode, encode, is_encoded_byte, lemma_decode_encode, lemma_encode_bytes, percent_decode,
    percent_encode,
};
use crate::text::{is_ascii_bytes, string_from_utf8};
use vstd::prelude::*;
use vstd::utf8::*;

verus! {

/// The byte `/`.
pub const SLASH: u8 = 0x2f;

/// The byte `{`.
pub const OPEN: u8 = 0x7b;

/// The byte `}`.
pub const CLOSE: u8 = 0x7d;

/// One segment of a path template, as a mathematical value.
pub enum SegmentView {
    /// Matches the segment with exactly these bytes.
    Literal(Seq<u8>),
    /// Matches any segment that is not empty, and captures it under a name.
    Param(Seq<char>),
}

/// One segment of a path template.
#[derive(Debug, Clone, PartialEq, Eq)]
pub enum Segment {
    /// Matches the segment with exactly these bytes.
    Literal(Vec<u8>),
    /// Matches any segment that is not empty, and captures it under a name.
    Param(String),
}

impl View for Segment {
    type V = SegmentView;

    open spec fn view(&self) -> SegmentView {
        match self {
            Segment::Literal(bytes) => SegmentView::Literal(bytes@),
            Segment::Param(name) => SegmentView::Param(name@),
        }
    }
}

/// The segments of a template, each by its view.
pub open spec fn template_view(segments: Seq<Segment>) -> Seq<SegmentView> {
    Seq::new(segments.len(), |i: int| segments[i]@)
}

/// The byte strings of a list of buffers.
pub open spec fn rows(parts: Seq<Vec<u8>>) -> Seq<Seq<u8>> {
    Seq::new(parts.len(), |i: int| parts[i]@)
}

/// The pieces between the separators of a byte string. A string without a
/// separator is one piece; two separators in a row enclose an empty piece.
pub open spec fn split(s: Seq<u8>, sep: u8) -> Seq<Seq<u8>>
    decreases s.len(),
{
    if s.len() == 0 {
        seq![Seq::empty()]
    } else {
        let before = split(s.drop_last(), sep);
        if s.last() == sep {
            before.push(Seq::empty())
        } else {
            before.drop_last().push(before.last().push(s.last()))
        }
    }
}

/// The segments of a path: the pieces behind its leading slash. A path that
/// does not begin with a slash has none.
pub open spec fn path_segments(path: Seq<u8>) -> Option<Seq<Seq<u8>>> {
    if path.len() > 0 && path[0] == SLASH {
        Some(split(path.skip(1), SLASH))
    } else {
        None
    }
}

/// Whether a byte string holds a brace.
pub open spec fn has_brace(s: Seq<u8>) -> bool {
    exists|i: int| 0 <= i < s.len() && (#[trigger] s[i] == OPEN || s[i] == CLOSE)
}

/// What one piece of a template text means: `{name}` is a parameter, a piece
/// without braces a literal, and anything else is not a segment.
pub open spec fn parse_segment(s: Seq<u8>) -> Option<SegmentView> {
    if s.len() >= 2 && s[0] == OPEN && s.last() == CLOSE {
        let name = s.subrange(1, s.len() - 1);
        if name.len() > 0 && !has_brace(name) && valid_utf8(name) {
            Some(SegmentView::Param(decode_utf8(name)))
        } else {
            None
        }
    } else if has_brace(s) {
        None
    } else {
        Some(SegmentView::Literal(s))
    }
}

/// Whether no two parameters of a template share a name.
pub open spec fn distinct_names(template: Seq<SegmentView>) -> bool {
    forall|i: int, j: int|
        0 <= i < j < template.len() && #[trigger] template[i] is Param
            && #[trigger] template[j] is Param ==> template[i]->Param_0 != template[j]->Param_0
}

/// The template that a text denotes, or `None` where the text is not a
/// template: it must begin with a slash, each piece must be a segment, and no
/// parameter name may occur twice.
pub open spec fn parse_template(text: Seq<u8>) -> Option<Seq<SegmentView>> {
    match path_segments(text) {
        None => None,
        Some(parts) => {
            if forall|i: int| 0 <= i < parts.len() ==> (#[trigger] parse_segment(parts[i])) is Some {
                let template = Seq::new(parts.len(), |i: int| parse_segment(parts[i])->0);
                if distinct_names(template) {
                    Some(template)
                } else {
                    None
                }
            } else {
                None
            }
        },
    }
}

/// What a parameter captures from a segment: the string that the segment
/// percent-encodes. An empty segment, or one whose decoded bytes are not
/// UTF-8, is not captured.
pub open spec fn capture(segment: Seq<u8>) -> Option<Seq<char>> {
    let raw = percent_decode(segment);
    if segment.len() > 0 && valid_utf8(raw) {
        Some(decode_utf8(raw))
    } else {
        None
    }
}

/// Whether a template segment accepts a path segment. Literals are compared
/// byte by byte, so case matters.
pub open spec fn segment_matches(t: SegmentView, segment: Seq<u8>) -> bool {
    match t {
        SegmentView::Literal(bytes) => bytes == segment,
        SegmentView::Param(_) => capture(segment) is Some,
    }
}

/// Whether a template accepts a path, segment for segment.
pub open spec fn fits(template: Seq<SegmentView>, segments: Seq<Seq<u8>>) -> bool {
    &&& template.len() == segments.len()
    &&& forall|i: int|
        0 <= i < template.len() ==> segment_matches(#[trigger] template[i], segments[i])
}

/// The parameters that a template captures from a path that it accepts, as
/// name and value, in the order of the template.
pub open spec fn captures(template: Seq<SegmentView>, segments: Seq<Seq<u8>>) -> Seq<
    (Seq<char>, Seq<char>),
>
    decreases template.len(),
{
    if template.len() == 0 || segments.len() == 0 {
        Seq::empty()
    } else {
        let before = captures(template.drop_last(), segments.drop_last());
        match template.last() {
            SegmentView::Param(name) => before.push((name, capture(segments.last())->0)),
            SegmentView::Literal(_) => before,
        }
    }
}

/// Splits the bytes from `start` on at each separator.
pub fn split_from(bytes: &[u8], start: usize, sep: u8) -> (parts: Vec<Vec<u8>>)
    requires
        start <= bytes.len(),
    ensures
        rows(parts@) == split(bytes@.skip(start as int), sep),
{
    let mut parts: Vec<Vec<u8>> = Vec::new();
    let mut current: Vec<u8> = Vec::new();
    let mut i: usize = start;
    assert(bytes@.subrange(start as int, start as int) =~= Seq::<u8>::empty());
    assert(rows(parts@).push(current@) =~= seq![Seq::<u8>::empty()]);
    while i < bytes.len()
        invariant
            start <= i <= bytes.len(),
            rows(parts@).push(current@) == split(bytes@.subrange(start as int, i as int), sep),
        decreases bytes.len() - i,
    {
        let ghost seen = bytes@.subrange(start as int, i as int);
        let ghost next = bytes@.subrange(start as int, i + 1);
        let ghost done = rows(parts@);
        let ghost cur = current@;
        assert(next.drop_last() =~= seen);
        assert(next.last() == bytes@[i as int]);
        if bytes[i] == sep {
            parts.push(current);
            current = Vec::new();
            assert(rows(parts@) =~= done.push(cur));
            assert(rows(parts@).push(current@) =~= split(seen, sep).push(Seq::empty()));
        } else {
            current.push(bytes[i]);
            assert(split(seen, sep).drop_last() =~= done);
            assert(split(seen, sep).last() == cur);
        }
        i += 1;
    }
    assert(bytes@.subrange(start as int, i as int) =~= bytes@.skip(start as int));
    let ghost done = rows(parts@);
    parts.push(current);
    assert(rows(parts@) =~= done.push(current@));
    parts
}

/// Reads what a parameter captures from a segment.
pub fn capture_segment(segment: &[u8]) -> (value: Option<String>)
    ensures
        match value {
            Some(v) => capture(segment@) == Some(v@),
            None => capture(segment@) is None,
        },
{
    if segment.len() == 0 {
        return None;
    }
    string_from_utf8(decode(segment))
}

fn holds_brace(s: &[u8]) -> (found: bool)
    ensures
        found == has_brace(s@),
{
    let mut i: usize = 0;
    while i < s.len()
        invariant
            0 <= i <= s.len(),
            forall|j: int| 0 <= j < i ==> s@[j] != OPEN && s@[j] != CLOSE,
        decreases s.len() - i,
    {
        if s[i] == OPEN || s[i] == CLOSE {
            return true;
        }
        i += 1;
    }
    false
}

/// Reads one piece of a template text.
pub fn read_segment(piece: &Vec<u8>) -> (segment: Option<Segment>)
    ensures
        match segment {
            Some(s) => parse_segment(piece@) == Some(s@),
            None => parse_segment(piece@) is None,
        },
{
    let n = piece.len();
    if n >= 2 && piece[0] == OPEN && piece[n - 1] == CLOSE {
        let mut name: Vec<u8> = Vec::new();
        let mut i: usize = 1;
        while i < n - 1
            invariant
                1 <= i <= n - 1,
                n == piece@.len(),
                name@ == piece@.subrange(1, i as int),
            decreases n - i,
        {
            name.push(piece[i]);
            assert(name@ =~= piece@.subrange(1, i + 1));
            i += 1;
        }
        if name.len() == 0 || holds_brace(name.as_slice()) {
            return None;
        }
        match string_from_utf8(name) {
            Some(text) => Some(Segment::Param(text)),
            None => None,
        }
    } else if holds_brace(piece.as_slice()) {
        None
    } else {
        Some(Segment::Literal(piece.clone()))
    }
}

/// Splitting gives at least one piece, and no piece holds the separator.
pub proof fn lemma_split_pieces(s: Seq<u8>, sep: u8)
    ensures
        split(s, sep).len() > 0,
        forall|i: int, k: int|
            0 <= i < split(s, sep).len() && 0 <= k < (#[trigger] split(s, sep)[i]).len()
                ==> #[trigger] split(s, sep)[i][k] != sep,
    decreases s.len(),
{
    if s.len() > 0 {
        lemma_split_pieces(s.drop_last(), sep);
        let before = split(s.drop_last(), sep);
        let now = split(s, sep);
        assert forall|i: int, k: int|
            0 <= i < now.len() && 0 <= k < (#[trigger] now[i]).len() implies #[trigger] now[i][k]
            != sep by {
            if s.last() == sep {
                if i < before.len() {
                    assert(now[i] == before[i]);
                }
            } else {
                if i < before.len() - 1 {
                    assert(now[i] == before[i]);
                } else {
                    assert(now[i] == before.last().push(s.last()));
                    if k < before.last().len() {
                        assert(now[i][k] == before.last()[k]);
                    }
                }
            }
        }
    }
}

/// A piece without the separator, put behind a separator, is one more piece.
pub proof fn lemma_split_append(s: Seq<u8>, piece: Seq<u8>, sep: u8)
    requires
        forall|k: int| 0 <= k < piece.len() ==> piece[k] != sep,
    ensures
        split(s + seq![sep] + piece, sep) == split(s, sep).push(piece),
    decreases piece.len(),
{
    let whole = s + seq![sep] + piece;
    if piece.len() == 0 {
        assert(whole.drop_last() =~= s);
        assert(piece =~= Seq::<u8>::empty());
    } else {
        let shorter = piece.drop_last();
        lemma_split_append(s, shorter, sep);
        assert(whole.drop_last() =~= s + seq![sep] + shorter);
        assert(whole.last() == piece.last());
        let before = split(s, sep).push(shorter);
        assert(before.drop_last() =~= split(s, sep));
        assert(shorter.push(piece.last()) =~= piece);
    }
}

/// A byte string without the separator is a single piece.
pub proof fn lemma_split_single(piece: Seq<u8>, sep: u8)
    requires
        forall|k: int| 0 <= k < piece.len() ==> piece[k] != sep,
    ensures
        split(piece, sep) == seq![piece],
    decreases piece.len(),
{
    if piece.len() == 0 {
        assert(piece =~= Seq::<u8>::empty());
    } else {
        lemma_split_single(piece.drop_last(), sep);
        assert(seq![piece.drop_last()].drop_last().push(piece.drop_last().push(piece.last()))
            =~= seq![piece]) by {
            assert(piece.drop_last().push(piece.last()) =~= piece);
        }
    }
}

/// The views of a list of strings.
pub open spec fn texts(strings: Seq<String>) -> Seq<Seq<char>> {
    Seq::new(strings.len(), |i: int| strings[i]@)
}

/// The number of parameters of a template.
pub open spec fn param_count(template: Seq<SegmentView>) -> nat
    decreases template.len(),
{
    if template.len() == 0 {
        0
    } else if template.last() is Param {
        param_count(template.drop_last()) + 1
    } else {
        param_count(template.drop_last())
    }
}

/// How an argument is written as a path segment: the percent-encoding of its
/// UTF-8 bytes.
pub open spec fn written_segment(arg: Seq<char>) -> Seq<u8> {
    percent_encode(encode_utf8(arg))
}

/// The segments of the path that a template gives for its arguments: each
/// literal as it is, each parameter replaced by the next argument as it is
/// written. There is one argument for each parameter.
pub open spec fn concrete_segments(template: Seq<SegmentView>, args: Seq<Seq<char>>) -> Seq<
    Seq<u8>,
>
    decreases template.len(),
{
    if template.len() == 0 {
        Seq::empty()
    } else {
        match template.last() {
            SegmentView::Literal(bytes) => concrete_segments(template.drop_last(), args).push(
                bytes,
            ),
            SegmentView::Param(_) => concrete_segments(
                template.drop_last(),
                args.drop_last(),
            ).push(written_segment(args.last())),
        }
    }
}

/// The path with the given segments: each one behind a slash.
pub open spec fn join(segments: Seq<Seq<u8>>) -> Seq<u8>
    decreases segments.len(),
{
    if segments.len() == 0 {
        Seq::empty()
    } else {
        join(segments.drop_last()) + seq![SLASH] + segments.last()
    }
}

/// The path that a template gives for its arguments.
pub open spec fn concrete_path(template: Seq<SegmentView>, args: Seq<Seq<char>>) -> Seq<u8> {
    join(concrete_segments(template, args))
}

/// The parameters of a template with the arguments given for them, as name
/// and value.
pub open spec fn bindings(template: Seq<SegmentView>, args: Seq<Seq<char>>) -> Seq<
    (Seq<char>, Seq<char>),
>
    decreases template.len(),
{
    if template.len() == 0 {
        Seq::empty()
    } else {
        match template.last() {
            SegmentView::Literal(_) => bindings(template.drop_last(), args),
            SegmentView::Param(name) => bindings(template.drop_last(), args.drop_last()).push(
                (name, args.last()),
            ),
        }
    }
}

/// A longer prefix of a template has no fewer parameters.
pub proof fn lemma_param_count_prefix(template: Seq<SegmentView>, n: int)
    requires
        0 <= n <= template.len(),
    ensures
        param_count(template.take(n)) <= param_count(template),
    decreases template.len(),
{
    if n == template.len() {
        assert(template.take(n) =~= template);
    } else {
        assert(template.drop_last().take(n) =~= template.take(n));
        lemma_param_count_prefix(template.drop_last(), n);
    }
}

/// Builds the path that a template gives for its arguments, or `None` where
/// there is not one argument for each parameter.
pub fn build_path(template: &Vec<Segment>, args: &Vec<String>) -> (path: Option<Vec<u8>>)
    ensures
        match path {
            Some(p) => args@.len() == param_count(template_view(template@)) && p@
                == concrete_path(template_view(template@), texts(args@)),
            None => args@.len() != param_count(template_view(template@)),
        },
{
    let ghost t = template_view(template@);
    let ghost a = texts(args@);
    let mut path: Vec<u8> = Vec::new();
    let mut used: usize = 0;
    let mut i: usize = 0;
    assert(t.take(0) =~= Seq::<SegmentView>::empty());
    while i < template.len()
        invariant
            0 <= i <= template.len(),
            t == template_view(template@),
            a == texts(args@),
            used <= args@.len(),
            used == param_count(t.take(i as int)),
            path@ == concrete_path(t.take(i as int), a.take(used as int)),
        decreases template.len() - i,
    {
        let ghost before = path@;
        let ghost done = concrete_segments(t.take(i as int), a.take(used as int));
        assert(t[i as int] == template@[i as int]@);
        assert(t.take(i + 1).drop_last() =~= t.take(i as int));
        assert(t.take(i + 1).last() == t[i as int]);
        path.push(SLASH);
        match &template[i] {
            Segment::Literal(bytes) => {
                let mut piece = bytes.clone();
                path.append(&mut piece);
                assert(path@ =~= before + seq![SLASH] + bytes@);
                assert(concrete_segments(t.take(i + 1), a.take(used as int)) == done.push(bytes@));
                assert(done.push(bytes@).drop_last() =~= done);
            },
            Segment::Param(_) => {
                if used >= args.len() {
                    proof {
                        lemma_param_count_prefix(t, i + 1);
                    }
                    return None;
                }
                let mut piece = encode(args[used].as_str().as_bytes());
                path.append(&mut piece);
                proof {
                    let arg = a[used as int];
                    assert(arg == args@[used as int]@);
                    assert(a.take(used + 1).drop_last() =~= a.take(used as int));
                    assert(a.take(used + 1).last() == arg);
                    assert(path@ =~= before + seq![SLASH] + written_segment(arg));
                    assert(concrete_segments(t.take(i + 1), a.take(used + 1)) == done.push(
                        written_segment(arg),
                    ));
                    assert(done.push(written_segment(arg)).drop_last() =~= done);
                }
                used += 1;
            },
        }
        i += 1;
    }
    assert(t.take(i as int) =~= t);
    if used != args.len() {
        return None;
    }
    assert(a.take(used as int) =~= a);
    Some(path)
}

/// The segments of a joined path are the segments that were joined, provided
/// that there is at least one and none holds a slash.
pub proof fn lemma_join_segments(segments: Seq<Seq<u8>>)
    requires
        segments.len() > 0,
        forall|i: int, k: int|
            0 <= i < segments.len() && 0 <= k < (#[trigger] segments[i]).len()
                ==> #[trigger] segments[i][k] != SLASH,
    ensures
        path_segments(join(segments)) == Some(segments),
    decreases segments.len(),
{
    let path = join(segments);
    let last = segments.last();
    let front = segments.drop_last();
    assert forall|k: int| 0 <= k < last.len() implies last[k] != SLASH by {
        assert(segments[segments.len() - 1][k] != SLASH);
    }
    if segments.len() == 1 {
        assert(join(front) =~= Seq::<u8>::empty());
        assert(path.skip(1) =~= last);
        lemma_split_single(last, SLASH);
        assert(seq![last] =~= segments);
    } else {
        assert forall|i: int, k: int|
            0 <= i < front.len() && 0 <= k < (#[trigger] front[i]).len() implies #[trigger] front[i][k]
            != SLASH by {
            assert(segments[i][k] != SLASH);
        }
        lemma_join_segments(front);
        let head = join(front);
        assert(head.len() > 0 && head[0] == SLASH);
        assert(path.skip(1) =~= head.skip(1) + seq![SLASH] + last);
        lemma_split_append(head.skip(1), last, SLASH);
        assert(front.push(last) =~= segments);
    }
}

/// An argument that is not empty is captured again from its written segment,
/// and the written segment holds no slash.
pub proof fn lemma_written_segment(arg: Seq<char>)
    requires
        arg.len() > 0,
    ensures
        capture(written_segment(arg)) == Some(arg),
        forall|k: int|
            0 <= k < written_segment(arg).len() ==> #[trigger] written_segment(arg)[k] != SLASH,
{
    let bytes = encode_utf8(arg);
    lemma_decode_encode(bytes);
    lemma_encode_bytes(bytes);
    encode_utf8_valid_utf8(arg);
    encode_utf8_decode_utf8(arg);
    assert(bytes.len() > 0) by {
        assert(encode_utf8(arg) == vstd::utf8::encode_scalar(arg[0] as u32) + encode_utf8(
            arg.drop_first(),
        ));
    }
    assert forall|k: int| 0 <= k < written_segment(arg).len() implies #[trigger] written_segment(
        arg,
    )[k] != SLASH by {
        assert(is_encoded_byte(percent_encode(bytes)[k]));
    }
}

/// A template accepts the path that it gives for arguments that are not
/// empty, and captures exactly those arguments from it.
pub proof fn lemma_concrete_segments(template: Seq<SegmentView>, args: Seq<Seq<char>>)
    requires
        args.len() == param_count(template),
        forall|i: int| 0 <= i < args.len() ==> (#[trigger] args[i]).len() > 0,
    ensures
        concrete_segments(template, args).len() == template.len(),
        fits(template, concrete_segments(template, args)),
        captures(template, concrete_segments(template, args)) == bindings(template, args),
    decreases template.len(),
{
    if template.len() > 0 {
        let front = template.drop_last();
        let segments = concrete_segments(template, args);
        match template.last() {
            SegmentView::Literal(bytes) => {
                lemma_concrete_segments(front, args);
                let before = concrete_segments(front, args);
                assert(segments.drop_last() =~= before);
                assert forall|i: int| 0 <= i < template.len() implies segment_matches(
                    #[trigger] template[i],
                    segments[i],
                ) by {
                    if i < front.len() {
                        assert(segment_matches(front[i], before[i]));
                    }
                }
            },
            SegmentView::Param(name) => {
                assert(args.len() > 0);
                assert forall|i: int| 0 <= i < args.drop_last().len() implies (
                #[trigger] args.drop_last()[i]).len() > 0 by {
                    assert(args[i].len() > 0);
                }
                lemma_concrete_segments(front, args.drop_last());
                assert(args[args.len() - 1].len() > 0);
                lemma_written_segment(args.last());
                let before = concrete_segments(front, args.drop_last());
                assert(segments.drop_last() =~= before);
                assert forall|i: int| 0 <= i < template.len() implies segment_matches(
                    #[trigger] template[i],
                    segments[i],
                ) by {
                    if i < front.len() {
                        assert(segment_matches(front[i], before[i]));
                    }
                }
            },
        }
    }
}

/// Whether every literal of a template is written in ASCII.
pub open spec fn ascii_literals(template: Seq<SegmentView>) -> bool {
    forall|i: int|
        0 <= i < template.len() && #[trigger] template[i] is Literal ==> is_ascii_bytes(
            template[i]->Literal_0,
        )
}

/// The path that a template with ASCII literals gives is written in ASCII.
pub proof fn lemma_concrete_path_is_ascii(template: Seq<SegmentView>, args: Seq<Seq<char>>)
    requires
        ascii_literals(template),
    ensures
        is_ascii_bytes(concrete_path(template, args)),
    decreases template.len(),
{
    if template.len() > 0 {
        let front = template.drop_last();
        assert(ascii_literals(front)) by {
            assert forall|i: int|
                0 <= i < front.len() && #[trigger] front[i] is Literal implies is_ascii_bytes(
                front[i]->Literal_0,
            ) by {
                assert(template[i] is Literal);
            }
        }
        let rest = if template.last() is Param {
            args.drop_last()
        } else {
            args
        };
        lemma_concrete_path_is_ascii(front, rest);
        let before = concrete_segments(front, rest);
        let segments = concrete_segments(template, args);
        let last = segments.last();
        assert(segments.drop_last() =~= before);
        assert(is_ascii_bytes(last)) by {
            match template.last() {
                SegmentView::Literal(bytes) => {
                    assert(template[template.len() - 1] is Literal);
                },
                SegmentView::Param(_) => {
                    lemma_encode_bytes(encode_utf8(args.last()));
                    assert forall|k: int| 0 <= k < last.len() implies #[trigger] last[k] < 128 by {
                        assert(is_encoded_byte(last[k]));
                    }
                },
            }
        }
        let head = join(before);
        let path = concrete_path(template, args);
        assert forall|k: int| 0 <= k < path.len() implies #[trigger] path[k] < 128 by {
            if k < head.len() {
                assert(path[k] == head[k]);
            } else if k == head.len() {
                assert(path[k] == SLASH);
            } else {
                assert(path[k] == last[k - head.len() - 1]);
            }
        }
    }
}

/// Whether no literal of a template holds the byte `b`.
pub open spec fn literals_avoid(template: Seq<SegmentView>, b: u8) -> bool {
    forall|i: int, k: int|
        0 <= i < template.len() && #[trigger] template[i] is Literal && 0 <= k
            < template[i]->Literal_0.len() ==> #[trigger] template[i]->Literal_0[k] != b
}

/// A byte that is neither a slash nor the byte of an encoded text, and that
/// no literal of a template holds, does not occur in the paths that the
/// template gives.
pub proof fn lemma_concrete_path_avoids(template: Seq<SegmentView>, args: Seq<Seq<char>>, b: u8)
    requires
        literals_avoid(template, b),
        !is_encoded_byte(b),
        b != SLASH,
    ensures
        forall|k: int|
            0 <= k < concrete_path(template, args).len() ==> concrete_path(template, args)[k] != b,
    decreases template.len(),
{
    if template.len() > 0 {
        let front = template.drop_last();
        assert(literals_avoid(front, b)) by {
            assert forall|i: int, k: int|
                0 <= i < front.len() && #[trigger] front[i] is Literal && 0 <= k
                    < front[i]->Literal_0.len() implies #[trigger] front[i]->Literal_0[k] != b by {
                assert(template[i] is Literal);
                assert(template[i]->Literal_0[k] != b);
            }
        }
        let rest = if template.last() is Param {
            args.drop_last()
        } else {
            args
        };
        lemma_concrete_path_avoids(front, rest, b);
        let before = concrete_segments(front, rest);
        let segments = concrete_segments(template, args);
        let last = segments.last();
        assert(segments.drop_last() =~= before);
        assert forall|k: int| 0 <= k < last.len() implies last[k] != b by {
            match template.last() {
                SegmentView::Literal(bytes) => {
                    assert(template[template.len() - 1] is Literal);
                    assert(template[template.len() - 1]->Literal_0[k] != b);
                },
                SegmentView::Param(_) => {
                    lemma_encode_bytes(encode_utf8(args.last()));
                    assert(is_encoded_byte(last[k]));
                },
            }
        }
        let head = join(before);
        let path = concrete_path(template, args);
        assert(path == head + seq![SLASH] + last);
        assert(head == concrete_path(front, rest));
        assert forall|k: int| 0 <= k < path.len() implies path[k] != b by {
            if k < head.len() {
                assert(path[k] == head[k]);
                assert(concrete_path(front, rest)[k] != b);
            } else if k == head.len() {
                assert(path[k] == SLASH);
            } else {
                let j = k - head.len() - 1;
                assert(path[k] == last[j]);
                assert(last[j] != b);
            }
        }
    }
}

/// Builds the path that a template gives for its arguments as a string, or
/// `None` where there is not one argument for each parameter or where a
/// literal makes the path something other than UTF-8.
pub fn build_uri(template: &Vec<Segment>, args: &Vec<String>) -> (uri: Option<String>)
    ensures
        match uri {
            Some(text) => args@.len() == param_count(template_view(template@)) && encode_utf8(
                text@,
            ) == concrete_path(template_view(template@), texts(args@)),
            None => args@.len() != param_count(template_view(template@)) || !valid_utf8(
                concrete_path(template_view(template@), texts(args@)),
            ),
        },
{
    match build_path(template, args) {
        None => None,
        Some(bytes) => {
            proof {
                if valid_utf8(bytes@) {
                    decode_utf8_encode_utf8(bytes@);
                }
            }
            string_from_utf8(bytes)
        },
    }
}

/// The byte `?`.
pub const QUESTION: u8 = 0x3f;

/// The place of the first separator in a byte string, or the length of the
/// string where it holds none.
pub open spec fn first_index(s: Seq<u8>, sep: u8) -> int
    decreases s.len(),
{
    if s.len() == 0 || s[0] == sep {
        0
    } else {
        1 + first_index(s.skip(1), sep)
    }
}

/// The path of a URI: what stands in front of its first `?`.
pub open spec fn path_part(uri: Seq<u8>) -> Seq<u8> {
    uri.take(first_index(uri, QUESTION))
}

/// The query of a URI: what stands behind its first `?`, if it has one.
pub open spec fn query_part(uri: Seq<u8>) -> Option<Seq<u8>> {
    if first_index(uri, QUESTION) < uri.len() {
        Some(uri.skip(first_index(uri, QUESTION) + 1))
    } else {
        None
    }
}

/// Behind a head that holds no separator, the first separator is found
/// where the head ends.
pub proof fn lemma_first_index_after(head: Seq<u8>, tail: Seq<u8>, sep: u8)
    requires
        forall|j: int| 0 <= j < head.len() ==> head[j] != sep,
        tail.len() == 0 || tail[0] == sep,
    ensures
        first_index(head + tail, sep) == head.len(),
    decreases head.len(),
{
    let s = head + tail;
    if head.len() == 0 {
        assert(s =~= tail);
    } else {
        assert(s[0] == head[0]);
        assert(s.skip(1) =~= head.skip(1) + tail);
        assert forall|j: int| 0 <= j < head.skip(1).len() implies head.skip(1)[j] != sep by {
            assert(head[j + 1] != sep);
        }
        lemma_first_index_after(head.skip(1), tail, sep);
    }
}

/// A URI without `?` is all path.
pub proof fn lemma_path_without_query(uri: Seq<u8>)
    requires
        forall|j: int| 0 <= j < uri.len() ==> uri[j] != QUESTION,
    ensures
        path_part(uri) == uri,
        query_part(uri) is None,
{
    lemma_first_index_after(uri, Seq::empty(), QUESTION);
    assert(uri + Seq::<u8>::empty() =~= uri);
    assert(uri.take(uri.len() as int) =~= uri);
}

/// Finds the first separator in a byte string.
pub fn index_of(bytes: &[u8], sep: u8) -> (n: usize)
    ensures
        n == first_index(bytes@, sep),
        n <= bytes.len(),
{
    let mut i: usize = 0;
    assert(bytes@.skip(0) =~= bytes@);
    while i < bytes.len() && bytes[i] != sep
        invariant
            0 <= i <= bytes.len(),
            first_index(bytes@, sep) == i + first_index(bytes@.skip(i as int), sep),
        decreases bytes.len() - i,
    {
        assert(bytes@.skip(i as int)[0] == bytes@[i as int]);
        assert(bytes@.skip(i as int).skip(1) =~= bytes@.skip(i + 1));
        i += 1;
    }
    proof {
        if i < bytes.len() {
            assert(bytes@.skip(i as int)[0] == bytes@[i as int]);
        }
    }
    i
}

/// Copies the bytes from `from` up to `to`.
pub fn copy_range(bytes: &[u8], from: usize, to: usize) -> (part: Vec<u8>)
    requires
        from <= to <= bytes.len(),
    ensures
        part@ == bytes@.subrange(from as int, to as int),
{
    let mut part: Vec<u8> = Vec::new();
    let mut i: usize = from;
    while i < to
        invariant
            from <= i <= to <= bytes.len(),
            part@ == bytes@.subrange(from as int, i as int),
        decreases to - i,
    {
        part.push(bytes[i]);
        assert(part@ =~= bytes@.subrange(from as int, i + 1));
        i += 1;
    }
    part
}

/// The path of a URI.
pub fn path_of(uri: &[u8]) -> (path: Vec<u8>)
    ensures
        path@ == path_part(uri@),
{
    let n = index_of(uri, QUESTION);
    copy_range(uri, 0, n)
}

/// The query of a URI, if it has one.
pub fn query_of(uri: &[u8]) -> (query: Option<Vec<u8>>)
    ensures
        match query {
            Some(q) => query_part(uri@) == Some(q@),
            None => query_part(uri@) is None,
        },
{
    let n = index_of(uri, QUESTION);
    if n < uri.len() {
        Some(copy_range(uri, n + 1, uri.len()))
    } else {
        None
    }
}

} // verus!
