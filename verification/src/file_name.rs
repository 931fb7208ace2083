use vstd::prelude::*;

verus! {

/// `i` is the position of the last `.` in `name`.
pub open spec fn is_last_dot(name: Seq<char>, i: int) -> bool {
    &&& 0 <= i < name.len()
    &&& name[i] == '.'
    &&& forall|j: int| i < j < name.len() ==> name[j] != '.'
}

/// `name` holds a `.`.
pub open spec fn has_dot(name: Seq<char>) -> bool {
    exists|i: int| 0 <= i < name.len() && name[i] == '.'
}

/// The position of the last `.` in `name`, where there is one.
pub open spec fn last_dot(name: Seq<char>) -> int {
    choose|i: int| is_last_dot(name, i)
}

/// The name `..` of the parent directory.
pub open spec fn is_parent_name(name: Seq<char>) -> bool {
    name == seq!['.', '.']
}

/// The stem of a file name: the whole name where it holds no `.`, where its only `.`
/// is its first character, or where it is `..`; else the part before its last `.`.
pub open spec fn file_stem_of(name: Seq<char>) -> Seq<char> {
    if is_parent_name(name) || !has_dot(name) || last_dot(name) == 0 {
        name
    } else {
        name.take(last_dot(name))
    }
}

/// The extension of a file name: none where the name holds no `.`, where its only `.`
/// is its first character, or where it is `..`; else the part after its last `.`.
pub open spec fn extension_of(name: Seq<char>) -> Option<Seq<char>> {
    if is_parent_name(name) || !has_dot(name) || last_dot(name) == 0 {
        None
    } else {
        Some(name.skip(last_dot(name) + 1))
    }
}

pub proof fn lemma_last_dot_unique(name: Seq<char>, i: int)
    requires
        is_last_dot(name, i),
    ensures
        has_dot(name),
        last_dot(name) == i,
{
    let k = last_dot(name);
    assert(is_last_dot(name, k));
    if k < i {
        assert(name[i] != '.');
    }
    if i < k {
        assert(name[k] != '.');
    }
}

/// Finds the last `.` of `name`, or `None` where there is none.
fn find_last_dot(name: &str) -> (res: Option<usize>)
    ensures
        match res {
            Some(i) => is_last_dot(name@, i as int) && last_dot(name@) == i && has_dot(name@),
            None => !has_dot(name@),
        },
{
    let len = name.unicode_len();
    let mut i = len;
    while i > 0
        invariant
            i <= len,
            len == name@.len(),
            forall|j: int| i <= j < len ==> name@[j] != '.',
        decreases i,
    {
        if name.get_char(i - 1) == '.' {
            proof {
                lemma_last_dot_unique(name@, i - 1);
            }
            return Some(i - 1);
        }
        i = i - 1;
    }
    None
}

fn is_parent(name: &str) -> (res: bool)
    ensures
        res == is_parent_name(name@),
{
    if name.unicode_len() == 2 {
        let a = name.get_char(0);
        let b = name.get_char(1);
        assert(name@ =~= seq![a, b]);
        a == '.' && b == '.'
    } else {
        false
    }
}

/// The stem of a file name, as `std::path::Path::file_stem` gives it for a path that
/// ends in that name; for `..`, where `file_stem` gives none, the whole name.
pub fn file_stem(name: &str) -> (res: String)
    ensures
        res@ == file_stem_of(name@),
{
    if is_parent(name) {
        return String::from_str(name);
    }
    match find_last_dot(name) {
        None => String::from_str(name),
        Some(i) => {
            if i == 0 {
                String::from_str(name)
            } else {
                let stem = name.substring_char(0, i);
                assert(name@.subrange(0, i as int) =~= name@.take(i as int));
                String::from_str(stem)
            }
        },
    }
}

/// The extension of a file name, as `std::path::Path::extension` gives it for a path
/// that ends in that name (none for `..`).
pub fn extension(name: &str) -> (res: Option<String>)
    ensures
        match res {
            Some(e) => extension_of(name@) == Some(e@),
            None => extension_of(name@) is None,
        },
{
    if is_parent(name) {
        return None;
    }
    match find_last_dot(name) {
        None => None,
        Some(i) => {
            if i == 0 {
                None
            } else {
                let len = name.unicode_len();
                let ext = name.substring_char(i + 1, len);
                assert(name@.subrange(i + 1, len as int) =~= name@.skip(i + 1));
                Some(String::from_str(ext))
            }
        },
    }
}

/// Where a file name has an extension, its stem, a `.` and the extension make up the
/// whole name.
pub proof fn lemma_stem_dot_extension(name: Seq<char>)
    requires
        extension_of(name) is Some,
    ensures
        file_stem_of(name) + seq!['.'] + extension_of(name)->0 == name,
{
    let i = last_dot(name);
    assert(is_last_dot(name, i)) by {
        let k = choose|k: int| 0 <= k < name.len() && name[k] == '.';
        lemma_some_last_dot(name, k);
    }
    assert(file_stem_of(name) + seq!['.'] + extension_of(name)->0 =~= name);
}

proof fn lemma_some_last_dot(name: Seq<char>, k: int)
    requires
        0 <= k < name.len(),
        name[k] == '.',
    ensures
        exists|i: int| is_last_dot(name, i),
    decreases name.len() - k,
{
    if exists|j: int| k < j < name.len() && name[j] == '.' {
        let j = choose|j: int| k < j < name.len() && name[j] == '.';
        lemma_some_last_dot(name, j);
    } else {
        assert(is_last_dot(name, k));
    }
}

/// A name made of a non-empty stem, a `.` and an ending without dots has that ending as
/// its extension and that stem as its stem, whatever dots the stem holds (`..`, which
/// has neither, aside).
pub proof fn lemma_name_splits_at_last_dot(stem: Seq<char>, ending: Seq<char>)
    requires
        stem.len() > 0,
        forall|i: int| 0 <= i < ending.len() ==> ending[i] != '.',
        !is_parent_name(stem + seq!['.'] + ending),
    ensures
        extension_of(stem + seq!['.'] + ending) == Some(ending),
        file_stem_of(stem + seq!['.'] + ending) == stem,
{
    let name = stem + seq!['.'] + ending;
    let k = stem.len() as int;
    assert(name[k] == '.');
    assert forall|j: int| k < j < name.len() implies name[j] != '.' by {
        assert(name[j] == ending[j - k - 1]);
    }
    lemma_last_dot_unique(name, k);
    assert(name.take(k) =~= stem);
    assert(name.skip(k + 1) =~= ending);
}

} // verus!
