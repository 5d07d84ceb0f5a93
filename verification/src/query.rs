//! The query of a URI: pairs of key and value behind the `?`.

use crate::params::Params;
use crate::path::{
    build_path, concrete_path, copy_range, first_index, index_of, lemma_first_index_after,
    lemma_split_append, lemma_split_single, param_count, path_part, query_part, rows, split,
    split_from, template_view, texts, written_segment, Segment, QUESTION,
};
use crate::percent::{
    decode, encode, is_encoded_byte, lemma_decode_encode, lemma_encode_bytes, percent_decode,
};
use crate::text::{is_ascii_bytes, string_from_utf8};
use vstd::prelude::*;
use vstd::utf8::*;

verus! {

/// The byte `&`.
pub const AMPERSAND: u8 = 0x26;

/// The byte `=`.
pub const EQUALS: u8 = 0x3d;

/// The parameters of a query.
pub type QueryParams = Params;

/// How a pair is written: key and value percent-encoded, with `=` between
/// them.
pub open spec fn written_pair(pair: (Seq<char>, Seq<char>)) -> Seq<u8> {
    written_segment(pair.0) + seq![EQUALS] + written_segment(pair.1)
}

/// How pairs are written as a query: one after the other, with `&` between
/// them.
pub open spec fn written_query(pairs: Seq<(Seq<char>, Seq<char>)>) -> Seq<u8>
    decreases pairs.len(),
{
    if pairs.len() == 0 {
        Seq::empty()
    } else if pairs.len() == 1 {
        written_pair(pairs[0])
    } else {
        written_query(pairs.drop_last()) + seq![AMPERSAND] + written_pair(pairs.last())
    }
}

/// The pair that a piece of a query stands for: key and value are parted at
/// the first `=` and percent-decoded; a piece without `=` is a key with an
/// empty value. A piece whose key or value does not decode to UTF-8 stands
/// for nothing.
pub open spec fn read_pair(piece: Seq<u8>) -> Option<(Seq<char>, Seq<char>)> {
    let n = first_index(piece, EQUALS);
    let key = percent_decode(piece.take(n));
    let value = if n < piece.len() {
        percent_decode(piece.skip(n + 1))
    } else {
        Seq::empty()
    };
    if valid_utf8(key) && valid_utf8(value) {
        Some((decode_utf8(key), decode_utf8(value)))
    } else {
        None
    }
}

/// The pairs that the pieces of a query stand for. Empty pieces are passed
/// over; one piece that stands for nothing spoils the whole query.
pub open spec fn read_pairs(pieces: Seq<Seq<u8>>) -> Option<Seq<(Seq<char>, Seq<char>)>>
    decreases pieces.len(),
{
    if pieces.len() == 0 {
        Some(Seq::empty())
    } else {
        match read_pairs(pieces.drop_last()) {
            None => None,
            Some(before) => if pieces.last().len() == 0 {
                Some(before)
            } else {
                match read_pair(pieces.last()) {
                    None => None,
                    Some(pair) => Some(before.push(pair)),
                }
            },
        }
    }
}

/// The pairs that a query stands for: its pieces between the `&`.
pub open spec fn parse_query(query: Seq<u8>) -> Option<Seq<(Seq<char>, Seq<char>)>> {
    read_pairs(split(query, AMPERSAND))
}

/// Writes pairs as a query.
pub fn write_query(pairs: &Params) -> (query: Vec<u8>)
    ensures
        query@ == written_query(pairs@),
{
    let mut query: Vec<u8> = Vec::new();
    let mut i: usize = 0;
    assert(pairs@.take(0) =~= Seq::<(Seq<char>, Seq<char>)>::empty());
    while i < pairs.len()
        invariant
            0 <= i <= pairs@.len(),
            query@ == written_query(pairs@.take(i as int)),
        decreases pairs@.len() - i,
    {
        let ghost before = query@;
        let ghost next = pairs@.take(i + 1);
        assert(next.drop_last() =~= pairs@.take(i as int));
        assert(next.last() == pairs@[i as int]);
        if i > 0 {
            query.push(AMPERSAND);
        }
        let (name, value) = pairs.entry(i);
        let mut key_text = encode(name.as_str().as_bytes());
        let mut value_text = encode(value.as_str().as_bytes());
        query.append(&mut key_text);
        query.push(EQUALS);
        query.append(&mut value_text);
        proof {
            if i == 0 {
                assert(before =~= Seq::<u8>::empty());
                assert(next[0] == pairs@[0]);
                assert(query@ =~= written_pair(pairs@[0]));
            } else {
                assert(query@ =~= before + seq![AMPERSAND] + written_pair(pairs@[i as int]));
            }
        }
        i += 1;
    }
    assert(pairs@.take(i as int) =~= pairs@);
    query
}

/// Reads one piece of a query.
fn read_piece(piece: &[u8]) -> (pair: Option<(String, String)>)
    ensures
        match pair {
            Some(p) => read_pair(piece@) == Some((p.0@, p.1@)),
            None => read_pair(piece@) is None,
        },
{
    let n = index_of(piece, EQUALS);
    let key_text = copy_range(piece, 0, n);
    assert(key_text@ =~= piece@.take(n as int));
    let value_text = if n < piece.len() {
        let text = copy_range(piece, n + 1, piece.len());
        assert(text@ =~= piece@.skip(n + 1));
        decode(text.as_slice())
    } else {
        Vec::new()
    };
    let key = string_from_utf8(decode(key_text.as_slice()));
    let value = string_from_utf8(value_text);
    match (key, value) {
        (Some(k), Some(v)) => Some((k, v)),
        _ => None,
    }
}

/// Reads the pairs of a query, or `None` where a key or a value does not
/// decode to UTF-8.
pub fn read_query(query: &[u8]) -> (pairs: Option<Params>)
    ensures
        match pairs {
            Some(p) => parse_query(query@) == Some(p@),
            None => parse_query(query@) is None,
        },
{
    let pieces = split_from(query, 0, AMPERSAND);
    assert(query@.skip(0) =~= query@);
    let ghost all = rows(pieces@);
    let mut pairs = Params::new();
    let mut i: usize = 0;
    assert(all.take(0) =~= Seq::<Seq<u8>>::empty());
    while i < pieces.len()
        invariant
            0 <= i <= pieces.len(),
            all == rows(pieces@),
            all == split(query@, AMPERSAND),
            read_pairs(all.take(i as int)) == Some(pairs@),
        decreases pieces.len() - i,
    {
        let ghost next = all.take(i + 1);
        assert(next.drop_last() =~= all.take(i as int));
        assert(next.last() == pieces@[i as int]@);
        if pieces[i].len() > 0 {
            match read_piece(pieces[i].as_slice()) {
                Some(pair) => {
                    pairs.push(pair.0, pair.1);
                },
                None => {
                    proof {
                        lemma_spoiled(all, i + 1);
                    }
                    return None;
                },
            }
        }
        i += 1;
    }
    assert(all.take(i as int) =~= all);
    Some(pairs)
}

/// Once a piece has spoiled a query, more pieces do not mend it.
proof fn lemma_spoiled(pieces: Seq<Seq<u8>>, n: int)
    requires
        0 <= n <= pieces.len(),
        read_pairs(pieces.take(n)) is None,
    ensures
        read_pairs(pieces) is None,
    decreases pieces.len() - n,
{
    if n < pieces.len() {
        assert(pieces.take(n + 1).drop_last() =~= pieces.take(n));
        lemma_spoiled(pieces, n + 1);
    } else {
        assert(pieces.take(n) =~= pieces);
    }
}

/// A written pair holds no `&`, is not empty, and is read back as the pair.
pub proof fn lemma_written_pair(pair: (Seq<char>, Seq<char>))
    ensures
        written_pair(pair).len() > 0,
        forall|k: int| 0 <= k < written_pair(pair).len() ==> written_pair(pair)[k] != AMPERSAND,
        read_pair(written_pair(pair)) == Some(pair),
{
    let key = written_segment(pair.0);
    let value = written_segment(pair.1);
    let piece = written_pair(pair);
    lemma_encode_bytes(encode_utf8(pair.0));
    lemma_encode_bytes(encode_utf8(pair.1));
    lemma_decode_encode(encode_utf8(pair.0));
    lemma_decode_encode(encode_utf8(pair.1));
    encode_utf8_valid_utf8(pair.0);
    encode_utf8_valid_utf8(pair.1);
    encode_utf8_decode_utf8(pair.0);
    encode_utf8_decode_utf8(pair.1);
    assert forall|k: int| 0 <= k < piece.len() implies piece[k] != AMPERSAND by {
        if k < key.len() {
            assert(is_encoded_byte(key[k]));
        } else if k > key.len() {
            assert(piece[k] == value[k - key.len() - 1]);
            assert(is_encoded_byte(value[k - key.len() - 1]));
        }
    }
    assert forall|k: int| 0 <= k < key.len() implies key[k] != EQUALS by {
        assert(is_encoded_byte(key[k]));
    }
    assert(piece =~= key + (seq![EQUALS] + value));
    lemma_first_index_after(key, seq![EQUALS] + value, EQUALS);
    assert(piece.take(key.len() as int) =~= key);
    assert(piece.skip(key.len() as int + 1) =~= value);
}

/// The pieces of a written query are its written pairs.
proof fn lemma_written_pieces(pairs: Seq<(Seq<char>, Seq<char>)>)
    requires
        pairs.len() > 0,
    ensures
        split(written_query(pairs), AMPERSAND) == Seq::new(
            pairs.len(),
            |i: int| written_pair(pairs[i]),
        ),
    decreases pairs.len(),
{
    let pieces = Seq::new(pairs.len(), |i: int| written_pair(pairs[i]));
    lemma_written_pair(pairs.last());
    if pairs.len() == 1 {
        lemma_split_single(written_pair(pairs[0]), AMPERSAND);
        assert(seq![written_pair(pairs[0])] =~= pieces);
    } else {
        let front = pairs.drop_last();
        lemma_written_pieces(front);
        lemma_split_append(written_query(front), written_pair(pairs.last()), AMPERSAND);
        let before = Seq::new(front.len(), |i: int| written_pair(front[i]));
        assert(before.push(written_pair(pairs.last())) =~= pieces);
    }
}

/// Written pairs are read back as the pairs.
proof fn lemma_read_written_pieces(pairs: Seq<(Seq<char>, Seq<char>)>)
    ensures
        read_pairs(Seq::new(pairs.len(), |i: int| written_pair(pairs[i]))) == Some(pairs),
    decreases pairs.len(),
{
    let pieces = Seq::new(pairs.len(), |i: int| written_pair(pairs[i]));
    if pairs.len() == 0 {
        assert(pairs =~= Seq::empty());
    } else {
        let front = pairs.drop_last();
        lemma_read_written_pieces(front);
        assert(pieces.drop_last() =~= Seq::new(front.len(), |i: int| written_pair(front[i])));
        lemma_written_pair(pairs.last());
        assert(pieces.last() == written_pair(pairs.last()));
        assert(front.push(pairs.last()) =~= pairs);
    }
}

/// Reading undoes writing: a written query is read back as the pairs that
/// were written, names and values alike, in their order.
pub proof fn lemma_query_round_trip(pairs: Seq<(Seq<char>, Seq<char>)>)
    ensures
        parse_query(written_query(pairs)) == Some(pairs),
{
    if pairs.len() == 0 {
        assert(pairs =~= Seq::empty());
        assert(split(Seq::<u8>::empty(), AMPERSAND) == seq![Seq::<u8>::empty()]);
        let pieces = seq![Seq::<u8>::empty()];
        assert(pieces.drop_last() =~= Seq::<Seq<u8>>::empty());
        assert(read_pairs(pieces.drop_last()) == Some(Seq::<(Seq<char>, Seq<char>)>::empty()));
    } else {
        lemma_written_pieces(pairs);
        lemma_read_written_pieces(pairs);
    }
}

/// The pairs of the query of a URI. A URI without query has none.
pub open spec fn query_pairs(uri: Seq<u8>) -> Option<Seq<(Seq<char>, Seq<char>)>> {
    match query_part(uri) {
        None => Some(Seq::empty()),
        Some(query) => parse_query(query),
    }
}

/// A path with pairs behind it as its query. Without pairs there is no `?`.
pub open spec fn with_query(path: Seq<u8>, pairs: Seq<(Seq<char>, Seq<char>)>) -> Seq<u8> {
    if pairs.len() == 0 {
        path
    } else {
        path + seq![QUESTION] + written_query(pairs)
    }
}

/// Reads the pairs of the query of a URI, or `None` where a key or a value
/// does not decode to UTF-8.
pub fn read_uri_query(uri: &[u8]) -> (pairs: Option<Params>)
    ensures
        match pairs {
            Some(p) => query_pairs(uri@) == Some(p@),
            None => query_pairs(uri@) is None,
        },
{
    let n = index_of(uri, QUESTION);
    if n < uri.len() {
        let query = copy_range(uri, n + 1, uri.len());
        assert(query@ =~= uri@.skip(n + 1));
        read_query(query.as_slice())
    } else {
        Some(Params::new())
    }
}

/// Builds the URI of an operation: the path that the template gives for
/// the arguments, and the pairs as its query. It is `None` where there is
/// not one argument for each parameter, or where a literal of the template
/// makes the URI something other than UTF-8.
pub fn build_uri_with_query(template: &Vec<Segment>, args: &Vec<String>, pairs: &Params) -> (uri:
    Option<String>)
    ensures
        match uri {
            Some(text) => args@.len() == param_count(template_view(template@)) && encode_utf8(
                text@,
            ) == with_query(concrete_path(template_view(template@), texts(args@)), pairs@),
            None => args@.len() != param_count(template_view(template@)) || !valid_utf8(
                with_query(concrete_path(template_view(template@), texts(args@)), pairs@),
            ),
        },
{
    match build_path(template, args) {
        None => None,
        Some(mut bytes) => {
            let ghost path = bytes@;
            if pairs.len() > 0 {
                let mut query = write_query(pairs);
                bytes.push(QUESTION);
                bytes.append(&mut query);
                assert(bytes@ =~= path + seq![QUESTION] + written_query(pairs@));
            }
            assert(bytes@ == with_query(path, pairs@));
            proof {
                if valid_utf8(bytes@) {
                    decode_utf8_encode_utf8(bytes@);
                }
            }
            string_from_utf8(bytes)
        },
    }
}

/// A written query is written in ASCII and holds no `?`.
pub proof fn lemma_written_query_bytes(pairs: Seq<(Seq<char>, Seq<char>)>)
    ensures
        is_ascii_bytes(written_query(pairs)),
        forall|k: int| 0 <= k < written_query(pairs).len() ==> written_query(pairs)[k] != QUESTION,
    decreases pairs.len(),
{
    if pairs.len() > 0 {
        let pair = pairs.last();
        let piece = written_pair(pair);
        let key = written_segment(pair.0);
        let value = written_segment(pair.1);
        lemma_encode_bytes(encode_utf8(pair.0));
        lemma_encode_bytes(encode_utf8(pair.1));
        assert forall|k: int| 0 <= k < piece.len() implies #[trigger] piece[k] < 128 && piece[k]
            != QUESTION by {
            if k < key.len() {
                assert(is_encoded_byte(key[k]));
            } else if k > key.len() {
                assert(piece[k] == value[k - key.len() - 1]);
                assert(is_encoded_byte(value[k - key.len() - 1]));
            }
        }
        if pairs.len() > 1 {
            lemma_written_query_bytes(pairs.drop_last());
            let head = written_query(pairs.drop_last());
            let whole = written_query(pairs);
            assert forall|k: int| 0 <= k < whole.len() implies #[trigger] whole[k] < 128 && whole[k]
                != QUESTION by {
                if k < head.len() {
                    assert(whole[k] == head[k]);
                } else if k > head.len() {
                    assert(whole[k] == piece[k - head.len() - 1]);
                }
            }
        } else {
            assert(pairs[0] == pair);
        }
    }
}

/// A URI that was built from a path without `?` and from pairs falls into
/// that path and those pairs again.
pub proof fn lemma_uri_round_trip(path: Seq<u8>, pairs: Seq<(Seq<char>, Seq<char>)>)
    requires
        forall|j: int| 0 <= j < path.len() ==> path[j] != QUESTION,
    ensures
        path_part(with_query(path, pairs)) == path,
        query_pairs(with_query(path, pairs)) == Some(pairs),
{
    let uri = with_query(path, pairs);
    if pairs.len() == 0 {
        crate::path::lemma_path_without_query(path);
        assert(pairs =~= Seq::empty());
    } else {
        let query = written_query(pairs);
        let tail = seq![QUESTION] + query;
        assert(first_index(uri, QUESTION) == path.len()) by {
            assert(uri =~= path + tail);
            lemma_first_index_after(path, tail, QUESTION);
        }
        assert(path_part(uri) == path) by {
            assert(uri.take(path.len() as int) =~= path);
        }
        assert(query_part(uri) == Some(query)) by {
            assert(uri.len() == path.len() + 1 + query.len());
            assert(uri.skip(path.len() as int + 1) =~= query);
        }
        assert(parse_query(query) == Some(pairs)) by {
            lemma_query_round_trip(pairs);
        }
    }
}

} // verus!
