//! File names and the identifiers that are built from them.
//!
//! A name here is the name of one directory entry, as one string: no path
//! separators are looked for. Its extension and its stem are told apart at
//! the last dot, as `std::path::Path` does for the last component of a path.

use vstd::prelude::*;
use vstd::std_specs::iter::IteratorSpec;
use vstd::string::*;

verus! {

/// The position of the last dot in `name`, or -1 where it holds none.
pub open spec fn last_dot(name: Seq<char>) -> int
    decreases name.len(),
{
    if name.len() == 0 {
        -1
    } else if name.last() == '.' {
        name.len() - 1
    } else {
        last_dot(name.drop_last())
    }
}

/// Whether `name` names no file at all: the empty name, `.` and `..`.
pub open spec fn is_no_file_name(name: Seq<char>) -> bool {
    name.len() == 0 || name == seq!['.'] || name == seq!['.', '.']
}

/// Whether `name` is made of a stem, a dot and an extension: it holds a dot
/// that is not its first character, and it is not `..`.
pub open spec fn has_split(name: Seq<char>) -> bool {
    last_dot(name) > 0 && name != seq!['.', '.']
}

/// The extension of `name`: what follows its last dot, or the empty string
/// where `name` is not split.
pub open spec fn spec_extension(name: Seq<char>) -> Seq<char> {
    if has_split(name) {
        name.skip(last_dot(name) + 1)
    } else {
        Seq::empty()
    }
}

/// The stem of `name`: what precedes its last dot, or the whole name where it
/// is not split; none where `name` names no file.
pub open spec fn spec_file_stem(name: Seq<char>) -> Option<Seq<char>> {
    if is_no_file_name(name) {
        None
    } else if has_split(name) {
        Some(name.take(last_dot(name)))
    } else {
        Some(name)
    }
}

/// Whether one of `exts` is the extension of `name`.
pub open spec fn spec_has_extension(name: Seq<char>, exts: Seq<&str>) -> bool {
    exists|i: int| 0 <= i < exts.len() && (#[trigger] exts[i])@ == spec_extension(name)
}

/// The identifier of a child called `name` under the identifier `id`:
/// `name` alone under the empty identifier, otherwise `id`, a dot and `name`.
pub open spec fn spec_id_push(id: Seq<char>, name: Seq<char>) -> Seq<char> {
    if id.len() == 0 {
        name
    } else {
        id + seq!['.'] + name
    }
}

/// `last_dot` is the position of a dot after which no dot follows, and it is
/// -1 exactly where the name holds no dot.
pub proof fn lemma_last_dot(name: Seq<char>)
    ensures
        -1 <= last_dot(name) < name.len(),
        last_dot(name) >= 0 ==> name[last_dot(name)] == '.',
        forall|j: int| last_dot(name) < j < name.len() ==> name[j] != '.',
    decreases name.len(),
{
    if name.len() > 0 && name.last() != '.' {
        let front = name.drop_last();
        lemma_last_dot(front);
        assert forall|j: int| last_dot(name) < j < name.len() implies name[j] != '.' by {
            if j < front.len() {
                assert(front[j] == name[j]);
            }
        }
    }
}

/// `str::eq` of std: whether the two strings hold the same characters.
#[verifier::external_body]
pub(crate) fn str_eq(a: &str, b: &str) -> (r: bool)
    ensures
        r == (a@ == b@),
{
    a == b
}

/// The position of the last dot in `name`, counted in characters.
fn find_last_dot(name: &str) -> (r: Option<usize>)
    ensures
        match r {
            Some(i) => last_dot(name@) == i,
            None => last_dot(name@) == -1,
        },
{
    broadcast use vstd::string::group_string_axioms;

    let n: usize = name.unicode_len();
    let mut chars = name.chars();
    let mut i: usize = 0;
    let mut last: Option<usize> = None;
    loop
        invariant
            i <= n,
            n == name@.len(),
            chars.remaining() == name@.skip(i as int),
            match last {
                Some(k) => last_dot(name@.take(i as int)) == k,
                None => last_dot(name@.take(i as int)) == -1,
            },
        decreases n - i,
    {
        match chars.next() {
            None => {
                assert(name@.take(i as int) =~= name@);
                return last;
            },
            Some(c) => {
                proof {
                    let front = name@.take(i + 1);
                    assert(front.drop_last() =~= name@.take(i as int));
                    assert(front.last() == c);
                    assert(name@.skip(i as int).drop_first() =~= name@.skip(i + 1));
                }
                if c == '.' {
                    last = Some(i);
                }
                i = i + 1;
            },
        }
    }
}

/// Whether `name` is `..`.
fn is_dot_dot(name: &str) -> (r: bool)
    ensures
        r == (name@ == seq!['.', '.']),
{
    proof {
        reveal_strlit("..");
    }
    let r = str_eq(name, "..");
    assert(".."@ =~= seq!['.', '.']);
    r
}

/// The extension of the file name `name`, the empty string where it has none.
pub fn extension_of(name: &str) -> (ext: &str)
    ensures
        ext@ == spec_extension(name@),
{
    let n: usize = name.unicode_len();
    proof {
        lemma_last_dot(name@);
    }
    match find_last_dot(name) {
        Some(i) => {
            if i > 0 && !is_dot_dot(name) {
                let ext = name.substring_char(i + 1, n);
                assert(ext@ =~= name@.skip(i + 1));
                ext
            } else {
                let ext = name.substring_char(0, 0);
                assert(ext@ =~= Seq::<char>::empty());
                ext
            }
        },
        None => {
            let ext = name.substring_char(0, 0);
            assert(ext@ =~= Seq::<char>::empty());
            ext
        },
    }
}

/// The stem of the file name `name`; `None` where it names no file.
pub fn file_stem(name: &str) -> (stem: Option<&str>)
    ensures
        match stem {
            Some(s) => spec_file_stem(name@) == Some(s@),
            None => spec_file_stem(name@) is None,
        },
{
    let n: usize = name.unicode_len();
    if n == 0 || is_dot_dot(name) {
        return None;
    }
    proof {
        lemma_last_dot(name@);
    }
    match find_last_dot(name) {
        Some(i) => {
            if i > 0 {
                let stem = name.substring_char(0, i);
                assert(stem@ =~= name@.take(i as int));
                assert(name@ != seq!['.']);
                Some(stem)
            } else if n == 1 {
                assert(name@ =~= seq!['.']);
                None
            } else {
                assert(name@ != seq!['.']);
                Some(name)
            }
        },
        None => {
            assert(name@ != seq!['.']) by {
                if name@ == seq!['.'] {
                    assert(name@.last() == '.');
                }
            }
            Some(name)
        },
    }
}

/// Whether the extension of the file name `name` is one of `exts`.
pub fn has_extension(name: &str, exts: &[&str]) -> (r: bool)
    ensures
        r == spec_has_extension(name@, exts@),
{
    let ext = extension_of(name);
    let mut i: usize = 0;
    while i < exts.len()
        invariant
            i <= exts@.len(),
            ext@ == spec_extension(name@),
            forall|j: int| 0 <= j < i ==> (#[trigger] exts@[j])@ != spec_extension(name@),
        decreases exts@.len() - i,
    {
        if str_eq(exts[i], ext) {
            return true;
        }
        i = i + 1;
    }
    false
}

/// Appends `name` to the identifier `id` as a further segment.
pub fn id_push(id: &mut String, name: &str)
    ensures
        final(id)@ == spec_id_push(old(id)@, name@),
{
    if !id.as_str().is_empty() {
        proof {
            reveal_strlit(".");
        }
        id.append(".");
        assert(id@ =~= old(id)@ + seq!['.']);
    }
    id.append(name);
    assert(id@ =~= spec_id_push(old(id)@, name@));
}

} // verus!
