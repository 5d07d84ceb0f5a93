//! What a build needs to know about schema sources: which files a source
//! imports, and how a file is named relative to a directory.

use crate::text::str_equal;
use vstd::prelude::*;
use vstd::string::StringExecFns;

verus! {

/// Whether `text` begins with `prefix`.
pub open spec fn begins_with(text: Seq<char>, prefix: Seq<char>) -> bool {
    prefix.len() <= text.len() && text.subrange(0, prefix.len() as int) == prefix
}

/// Whether `text` ends with `suffix`.
pub open spec fn finishes_with(text: Seq<char>, suffix: Seq<char>) -> bool {
    suffix.len() <= text.len() && text.subrange(text.len() - suffix.len(), text.len() as int)
        == suffix
}

/// Whether `i` is the place of the first double quote of a line.
pub open spec fn is_first_quote(line: Seq<char>, i: int) -> bool {
    &&& 0 <= i < line.len()
    &&& line[i] == '"'
    &&& forall|j: int| 0 <= j < i ==> line[j] != '"'
}

/// Whether `i` is the place of the last double quote of a line.
pub open spec fn is_last_quote(line: Seq<char>, i: int) -> bool {
    &&& 0 <= i < line.len()
    &&& line[i] == '"'
    &&& forall|j: int| i < j < line.len() ==> line[j] != '"'
}

/// Whether `path` is what a line imports: the line begins with `import`,
/// and the path stands between its first and its last double quote.
pub open spec fn imports(line: Seq<char>, path: Seq<char>) -> bool {
    &&& begins_with(line, "import"@)
    &&& exists|first: int, last: int|
        #![trigger is_first_quote(line, first), is_last_quote(line, last)]
        is_first_quote(line, first) && is_last_quote(line, last) && first < last && path
            == line.subrange(first + 1, last)
}

/// Whether a line imports anything: it begins with `import` and holds two
/// double quotes.
pub open spec fn is_import(line: Seq<char>) -> bool {
    &&& begins_with(line, "import"@)
    &&& exists|first: int, last: int|
        #![trigger is_first_quote(line, first), is_last_quote(line, last)]
        is_first_quote(line, first) && is_last_quote(line, last) && first < last
}

/// Whether an import names a schema source in the file system: a path that
/// ends with `.tsp` and begins with `/` or `.`. Other imports name packages.
pub open spec fn is_source_path(path: Seq<char>) -> bool {
    &&& finishes_with(path, ".tsp"@)
    &&& path.len() > 0
    &&& (path[0] == '/' || path[0] == '.')
}

/// Whether a path begins at the root of the file system.
pub open spec fn is_absolute_path(path: Seq<char>) -> bool {
    path.len() > 0 && path[0] == '/'
}

fn starts_with(text: &str, prefix: &str) -> (r: bool)
    ensures
        r == begins_with(text@, prefix@),
{
    let n = prefix.unicode_len();
    if n > text.unicode_len() {
        return false;
    }
    str_equal(text.substring_char(0, n), prefix)
}

fn ends_with(text: &str, suffix: &str) -> (r: bool)
    ensures
        r == finishes_with(text@, suffix@),
{
    let n = suffix.unicode_len();
    let m = text.unicode_len();
    if n > m {
        return false;
    }
    str_equal(text.substring_char(m - n, m), suffix)
}

/// The path that a line of a schema source imports, if the line is an
/// import.
pub fn import_target(line: &str) -> (target: Option<String>)
    ensures
        match target {
            Some(path) => imports(line@, path@),
            None => !is_import(line@),
        },
{
    if !starts_with(line, "import") {
        return None;
    }
    let n = line.unicode_len();
    let mut first: usize = 0;
    while first < n && line.get_char(first) != '"'
        invariant
            0 <= first <= n,
            n == line@.len(),
            forall|j: int| 0 <= j < first ==> line@[j] != '"',
        decreases n - first,
    {
        first += 1;
    }
    if first == n {
        assert forall|a: int, b: int| !(is_first_quote(line@, a) && is_last_quote(line@, b)) by {}
        return None;
    }
    let mut last: usize = n - 1;
    while last > first && line.get_char(last) != '"'
        invariant
            first <= last < n,
            n == line@.len(),
            forall|j: int| last < j < n ==> line@[j] != '"',
        decreases last,
    {
        last -= 1;
    }
    assert(is_first_quote(line@, first as int));
    assert(is_last_quote(line@, last as int));
    if last == first {
        assert forall|a: int, b: int|
            is_first_quote(line@, a) && is_last_quote(line@, b) implies !(a < b) by {
            if a < first {
                assert(line@[a] != '"');
            }
            if b > last {
                assert(line@[b] != '"');
            }
        }
        return None;
    }
    Some(line.substring_char(first + 1, last).to_owned())
}

/// Whether an import names a schema source in the file system.
pub fn is_source_import(path: &str) -> (r: bool)
    ensures
        r == is_source_path(path@),
{
    if path.unicode_len() == 0 {
        return false;
    }
    let c = path.get_char(0);
    ends_with(path, ".tsp") && (c == '/' || c == '.')
}

/// Whether a path begins at the root of the file system.
pub fn is_absolute(path: &str) -> (r: bool)
    ensures
        r == is_absolute_path(path@),
{
    path.unicode_len() > 0 && path.get_char(0) == '/'
}

/// The number of leading components that two paths share.
pub open spec fn common_prefix(a: Seq<Seq<char>>, b: Seq<Seq<char>>) -> nat
    decreases a.len(),
{
    if a.len() == 0 || b.len() == 0 || a[0] != b[0] {
        0
    } else {
        1 + common_prefix(a.skip(1), b.skip(1))
    }
}

/// `../` as often as `n` says.
pub open spec fn ascent(n: nat) -> Seq<char>
    decreases n,
{
    if n == 0 {
        Seq::empty()
    } else {
        "../"@ + ascent((n - 1) as nat)
    }
}

/// The components joined by `/`.
pub open spec fn joined(components: Seq<Seq<char>>) -> Seq<char>
    decreases components.len(),
{
    if components.len() == 0 {
        Seq::empty()
    } else if components.len() == 1 {
        components[0]
    } else {
        joined(components.drop_last()) + "/"@ + components.last()
    }
}

/// How a file is named from a directory: up from the directory to the last
/// component that both share, then down to the file.
pub open spec fn relative(directory: Seq<Seq<char>>, file: Seq<Seq<char>>) -> Seq<char> {
    let shared = common_prefix(directory, file);
    ascent((directory.len() - shared) as nat) + joined(file.skip(shared as int))
}

/// The views of a list of strings.
pub open spec fn components(strings: Seq<String>) -> Seq<Seq<char>> {
    Seq::new(strings.len(), |i: int| strings[i]@)
}

fn shared_components(a: &Vec<String>, b: &Vec<String>) -> (n: usize)
    ensures
        n == common_prefix(components(a@), components(b@)),
        n <= a@.len(),
        n <= b@.len(),
{
    let ghost x = components(a@);
    let ghost y = components(b@);
    let mut i: usize = 0;
    assert(x.skip(0) =~= x);
    assert(y.skip(0) =~= y);
    while i < a.len() && i < b.len() && str_equal(a[i].as_str(), b[i].as_str())
        invariant
            0 <= i <= a@.len(),
            i <= b@.len(),
            x == components(a@),
            y == components(b@),
            common_prefix(x, y) == i + common_prefix(x.skip(i as int), y.skip(i as int)),
        decreases a@.len() - i,
    {
        assert(x.skip(i as int)[0] == a@[i as int]@);
        assert(y.skip(i as int)[0] == b@[i as int]@);
        assert(x.skip(i as int).skip(1) =~= x.skip(i + 1));
        assert(y.skip(i as int).skip(1) =~= y.skip(i + 1));
        i += 1;
    }
    proof {
        if i < a.len() && i < b.len() {
            assert(x.skip(i as int)[0] == a@[i as int]@);
            assert(y.skip(i as int)[0] == b@[i as int]@);
        }
    }
    i
}

/// One more step up goes in front or behind alike.
proof fn lemma_ascent_push(n: nat)
    ensures
        ascent(n) + "../"@ == ascent(n + 1),
    decreases n,
{
    if n == 0 {
        assert(ascent(0) + "../"@ =~= "../"@ + ascent(0));
    } else {
        lemma_ascent_push((n - 1) as nat);
        assert(ascent(n) + "../"@ =~= "../"@ + (ascent((n - 1) as nat) + "../"@));
    }
}

/// Names a file relative to a directory, both given by their components
/// from the root.
pub fn relative_path(directory: &Vec<String>, file: &Vec<String>) -> (path: String)
    ensures
        path@ == relative(components(directory@), components(file@)),
{
    let shared = shared_components(directory, file);
    let ghost f = components(file@);
    let mut path = String::new();
    let mut up: usize = shared;
    assert(path@ =~= ascent(0));
    while up < directory.len()
        invariant
            shared <= up <= directory@.len(),
            path@ == ascent((up - shared) as nat),
        decreases directory@.len() - up,
    {
        proof {
            lemma_ascent_push((up - shared) as nat);
        }
        path.append("../");
        up += 1;
    }
    let ghost climb = path@;
    let ghost rest = f.skip(shared as int);
    let mut i: usize = shared;
    assert(rest.take(0) =~= Seq::<Seq<char>>::empty());
    assert(path@ =~= climb + joined(rest.take(0)));
    while i < file.len()
        invariant
            shared <= i <= file@.len(),
            f == components(file@),
            rest == f.skip(shared as int),
            path@ == climb + joined(rest.take(i - shared)),
        decreases file@.len() - i,
    {
        let ghost before = rest.take(i - shared);
        let ghost next = rest.take(i - shared + 1);
        assert(next.drop_last() =~= before);
        assert(next.last() == file@[i as int]@);
        if i > shared {
            path.append("/");
            path.append(file[i].as_str());
            assert(path@ =~= climb + (joined(before) + "/"@ + file@[i as int]@));
        } else {
            path.append(file[i].as_str());
            assert(before =~= Seq::<Seq<char>>::empty());
            assert(next[0] == file@[i as int]@);
            assert(path@ =~= climb + file@[i as int]@);
        }
        i += 1;
    }
    assert(rest.take(i - shared) =~= rest);
    path
}

} // verus!
