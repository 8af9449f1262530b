//! File paths as text. A path's components are divided by `/` or `\`; both
//! are read as separators, and `/` is written.

use vstd::prelude::*;
use crate::text::{chars_of, slice_string};

verus! {

/// Whether a character divides the components of a path.
pub open spec fn is_separator(c: char) -> bool {
    c == '/' || c == '\\'
}

/// Where the last component of a path begins: just behind its last separator,
/// or at 0 where it has none.
pub open spec fn name_start(path: Seq<char>) -> int
    decreases path.len(),
{
    if path.len() == 0 {
        0
    } else if is_separator(path.last()) {
        path.len() as int
    } else {
        name_start(path.drop_last())
    }
}

/// The last component of a path: what follows its last separator. It is empty
/// where the path ends in a separator.
pub open spec fn file_name_of(path: Seq<char>) -> Seq<char> {
    path.skip(name_start(path))
}

/// The index of the last occurrence of `c` in `s`, or -1.
pub open spec fn last_position(s: Seq<char>, c: char) -> int
    decreases s.len(),
{
    if s.len() == 0 {
        -1
    } else if s.last() == c {
        s.len() - 1
    } else {
        last_position(s.drop_last(), c)
    }
}

/// The extension of a path: what follows the last dot of its last component.
/// A component without a dot, or whose only dot is its first character, has
/// none.
pub open spec fn extension_of(path: Seq<char>) -> Option<Seq<char>> {
    let name = file_name_of(path);
    let dot = last_position(name, '.');
    if dot <= 0 {
        None
    } else {
        Some(name.skip(dot + 1))
    }
}

/// The path without the extension of its last component and without the dot
/// before it.
pub open spec fn without_extension(path: Seq<char>) -> Seq<char> {
    let dot = last_position(file_name_of(path), '.');
    if dot <= 0 {
        path
    } else {
        path.take(name_start(path) + dot)
    }
}

/// The path with the extension of its last component replaced by `ext`.
pub open spec fn with_extension_of(path: Seq<char>, ext: Seq<char>) -> Seq<char> {
    without_extension(path) + seq!['.'] + ext
}

/// A directory's path and the path of something in it, in one path.
pub open spec fn join_of(base: Seq<char>, child: Seq<char>) -> Seq<char> {
    if base.len() == 0 {
        child
    } else if is_separator(base.last()) {
        base + child
    } else {
        base + seq!['/'] + child
    }
}

/// The last component of a path lies in the path, directly behind a
/// separator or at the path's beginning, and holds no separator itself.
pub proof fn law_file_name_holds_no_separator(path: Seq<char>)
    ensures
        0 <= name_start(path) <= path.len(),
        forall|k: int| name_start(path) <= k < path.len() ==> !is_separator(#[trigger] path[k]),
        name_start(path) > 0 ==> is_separator(path[name_start(path) - 1]),
        forall|k: int|
            0 <= k < file_name_of(path).len() ==> !is_separator(#[trigger] file_name_of(path)[k]),
        path == path.take(name_start(path)) + file_name_of(path),
    decreases path.len(),
{
    if path.len() > 0 && !is_separator(path.last()) {
        let rest = path.drop_last();
        law_file_name_holds_no_separator(rest);
        assert forall|k: int| name_start(path) <= k < path.len() implies !is_separator(
            #[trigger] path[k],
        ) by {
            if k < rest.len() {
                assert(path[k] == rest[k]);
            }
        }
    }
    assert(path =~= path.take(name_start(path)) + file_name_of(path));
}

/// The last occurrence of a character is an occurrence, and none follows
/// it.
pub proof fn law_last_position_is_last(s: Seq<char>, c: char)
    ensures
        -1 <= last_position(s, c) < s.len(),
        last_position(s, c) >= 0 ==> s[last_position(s, c)] == c,
        forall|k: int| last_position(s, c) < k < s.len() ==> #[trigger] s[k] != c,
    decreases s.len(),
{
    if s.len() > 0 && s.last() != c {
        let rest = s.drop_last();
        law_last_position_is_last(rest, c);
        assert forall|k: int| last_position(s, c) < k < s.len() implies #[trigger] s[k] != c by {
            if k < rest.len() {
                assert(s[k] == rest[k]);
            }
        }
    }
}

/// Where the last component begins in the characters `v`.
fn find_name_start(v: &Vec<char>) -> (r: usize)
    ensures
        r == name_start(v@),
        r <= v.len(),
{
    let mut i: usize = v.len();
    assert(v@.take(i as int) =~= v@);
    while i > 0
        invariant
            i <= v.len(),
            name_start(v@) == name_start(v@.take(i as int)),
        decreases i,
    {
        let c = v[i - 1];
        assert(v@.take(i as int).last() == c);
        if c == '/' || c == '\\' {
            return i;
        }
        assert(v@.take(i as int).drop_last() =~= v@.take(i - 1));
        i -= 1;
    }
    0
}

/// The index of the last `c` among `v[from..]`, counted from `from`.
fn find_last(v: &Vec<char>, from: usize, c: char) -> (r: Option<usize>)
    requires
        from <= v.len(),
    ensures
        r is None <==> last_position(v@.skip(from as int), c) == -1,
        r is Some ==> r->0 == last_position(v@.skip(from as int), c) && r->0 + from < v.len(),
{
    let ghost s = v@.skip(from as int);
    let mut i: usize = v.len() - from;
    assert(s.take(i as int) =~= s);
    while i > 0
        invariant
            from + i <= v.len(),
            s == v@.skip(from as int),
            last_position(s, c) == last_position(s.take(i as int), c),
        decreases i,
    {
        let x = v[from + i - 1];
        assert(s.take(i as int).last() == x);
        if x == c {
            return Some(i - 1);
        }
        assert(s.take(i as int).drop_last() =~= s.take(i - 1));
        i -= 1;
    }
    None
}

/// The last component of a path.
pub fn file_name(path: &str) -> (name: String)
    ensures
        name@ == file_name_of(path@),
{
    let v = chars_of(path);
    let start = find_name_start(&v);
    let name = slice_string(path, start, v.len());
    assert(name@ =~= file_name_of(path@));
    name
}

/// The extension of a path, if its last component has one.
pub fn extension(path: &str) -> (ext: Option<String>)
    ensures
        (ext is Some) == (extension_of(path@) is Some),
        ext is Some ==> ext->0@ == extension_of(path@)->0,
{
    let v = chars_of(path);
    let start = find_name_start(&v);
    assert(v@.skip(start as int) == file_name_of(path@));
    match find_last(&v, start, '.') {
        None => None,
        Some(dot) => {
            if dot == 0 {
                None
            } else {
                let ext = slice_string(path, start + dot + 1, v.len());
                assert(ext@ =~= file_name_of(path@).skip(dot + 1));
                Some(ext)
            }
        },
    }
}

/// The path with the extension of its last component replaced by `ext`.
pub fn with_extension(path: &str, ext: &str) -> (r: String)
    ensures
        r@ == with_extension_of(path@, ext@),
{
    proof {
        reveal_strlit(".");
    }
    let v = chars_of(path);
    let start = find_name_start(&v);
    assert(v@.skip(start as int) == file_name_of(path@));
    let end = match find_last(&v, start, '.') {
        None => v.len(),
        Some(dot) => if dot == 0 {
            v.len()
        } else {
            start + dot
        },
    };
    let mut r = slice_string(path, 0, end);
    assert(r@ =~= without_extension(path@));
    r.append(".");
    r.append(ext);
    assert(r@ =~= with_extension_of(path@, ext@));
    r
}

/// A directory's path and the path of something in it, in one path.
pub fn join(base: &str, child: &str) -> (r: String)
    ensures
        r@ == join_of(base@, child@),
{
    proof {
        reveal_strlit("/");
    }
    let n = base.unicode_len();
    let mut r = String::from_str(base);
    if n > 0 {
        let last = base.get_char(n - 1);
        if !(last == '/' || last == '\\') {
            r.append("/");
        }
    }
    r.append(child);
    assert(r@ =~= join_of(base@, child@));
    r
}

/// An extension holds no dot.
pub proof fn law_extension_holds_no_dot(path: Seq<char>)
    ensures
        extension_of(path) matches Some(ext) ==> !ext.contains('.'),
{
    let name = file_name_of(path);
    law_last_position_is_last(name, '.');
    if let Some(ext) = extension_of(path) {
        let dot = last_position(name, '.');
        if ext.contains('.') {
            let k = choose|k: int| 0 <= k < ext.len() && ext[k] == '.';
            assert(name[dot + 1 + k] == '.');
        }
    }
}

/// What `join_of` puts before the child: the directory's path, closed by a
/// separator unless it is empty.
pub open spec fn directory_prefix_of(base: Seq<char>) -> Seq<char> {
    if base.len() == 0 || is_separator(base.last()) {
        base
    } else {
        base.push('/')
    }
}

/// Whether a path lies in a directory or below it: it begins with the
/// directory's path, closed by a separator.
pub open spec fn lies_under(dir: Seq<char>, path: Seq<char>) -> bool {
    let prefix = directory_prefix_of(dir);
    prefix.len() <= path.len() && path.take(prefix.len() as int) == prefix
}

/// Whether a text holds no separator.
pub open spec fn is_plain_name(name: Seq<char>) -> bool {
    forall|k: int| 0 <= k < name.len() ==> !is_separator(#[trigger] name[k])
}

pub(crate) proof fn lemma_name_start_of_parts(a: Seq<char>, b: Seq<char>)
    ensures
        name_start(a + b) == (if name_start(b) > 0 {
            a.len() + name_start(b)
        } else {
            name_start(a)
        }),
    decreases b.len(),
{
    if b.len() == 0 {
        assert(a + b =~= a);
    } else {
        let whole = a + b;
        assert(whole.last() == b.last());
        assert(whole.drop_last() =~= a + b.drop_last());
        lemma_name_start_of_parts(a, b.drop_last());
    }
}

proof fn lemma_last_position_of_parts(a: Seq<char>, b: Seq<char>, c: char)
    ensures
        last_position(a + b, c) == (if last_position(b, c) >= 0 {
            a.len() + last_position(b, c)
        } else {
            last_position(a, c)
        }),
    decreases b.len(),
{
    if b.len() == 0 {
        assert(a + b =~= a);
    } else {
        let whole = a + b;
        assert(whole.last() == b.last());
        assert(whole.drop_last() =~= a + b.drop_last());
        lemma_last_position_of_parts(a, b.drop_last(), c);
    }
}

pub(crate) proof fn lemma_plain_name_starts_at_its_beginning(name: Seq<char>)
    requires
        is_plain_name(name),
    ensures
        name_start(name) == 0,
    decreases name.len(),
{
    if name.len() > 0 {
        let rest = name.drop_last();
        assert(!is_separator(name[name.len() - 1]));
        assert forall|k: int| 0 <= k < rest.len() implies !is_separator(#[trigger] rest[k]) by {
            assert(rest[k] == name[k]);
        }
        lemma_plain_name_starts_at_its_beginning(rest);
    }
}

proof fn lemma_directory_prefix_ends_closed(base: Seq<char>)
    ensures
        name_start(directory_prefix_of(base)) == directory_prefix_of(base).len(),
{
    let prefix = directory_prefix_of(base);
    if prefix.len() > 0 {
        assert(is_separator(prefix.last()));
    }
}

/// A joined path is the directory's path, closed by a separator, and the
/// child behind it; its last component is the child's last component.
pub proof fn law_joined_path_ends_with_the_child(base: Seq<char>, child: Seq<char>)
    ensures
        join_of(base, child) == directory_prefix_of(base) + child,
        lies_under(base, join_of(base, child)),
        file_name_of(join_of(base, child)) == file_name_of(child),
        is_plain_name(child) ==> file_name_of(join_of(base, child)) == child,
{
    let prefix = directory_prefix_of(base);
    let joined = join_of(base, child);
    assert(joined =~= prefix + child);
    assert(joined.take(prefix.len() as int) =~= prefix);
    lemma_name_start_of_parts(prefix, child);
    lemma_directory_prefix_ends_closed(base);
    law_file_name_holds_no_separator(child);
    assert(file_name_of(joined) =~= file_name_of(child));
    if is_plain_name(child) {
        lemma_plain_name_starts_at_its_beginning(child);
        assert(file_name_of(child) =~= child);
    }
}

/// A name with a dot and an extension behind it has that extension, if the
/// name is not empty and neither part holds a separator, nor the extension a
/// dot.
pub proof fn law_appended_extension_is_the_extension(stem: Seq<char>, ext: Seq<char>)
    requires
        stem.len() > 0,
        is_plain_name(stem),
        is_plain_name(ext),
        !ext.contains('.'),
    ensures
        is_plain_name(stem + seq!['.'] + ext),
        extension_of(stem + seq!['.'] + ext) == Some(ext),
{
    let dotted = stem + seq!['.'];
    let name = dotted + ext;
    assert forall|k: int| 0 <= k < name.len() implies !is_separator(#[trigger] name[k]) by {
        if k < stem.len() {
            assert(name[k] == stem[k]);
        } else if k > stem.len() {
            assert(name[k] == ext[k - stem.len() - 1]);
        }
    }
    lemma_plain_name_starts_at_its_beginning(name);
    assert(file_name_of(name) =~= name);
    law_last_position_is_last(ext, '.');
    if last_position(ext, '.') >= 0 {
        assert(ext.contains(ext[last_position(ext, '.')]));
    }
    lemma_last_position_of_parts(dotted, ext, '.');
    assert(dotted.last() == '.');
    assert(last_position(name, '.') == stem.len());
    assert(name.skip(stem.len() as int + 1) =~= ext);
}

/// The part of a name before its extension.
pub open spec fn stem_of(name: Seq<char>) -> Seq<char> {
    let dot = last_position(name, '.');
    if dot <= 0 {
        name
    } else {
        name.take(dot)
    }
}

proof fn lemma_stem_of_a_plain_name(name: Seq<char>)
    requires
        name.len() > 0,
        is_plain_name(name),
    ensures
        stem_of(name).len() > 0,
        is_plain_name(stem_of(name)),
        without_extension(name) == stem_of(name),
{
    let stem = stem_of(name);
    law_last_position_is_last(name, '.');
    lemma_plain_name_starts_at_its_beginning(name);
    assert(file_name_of(name) =~= name);
    assert forall|k: int| 0 <= k < stem.len() implies !is_separator(#[trigger] stem[k]) by {
        assert(stem[k] == name[k]);
    }
    assert(without_extension(name) =~= stem);
}

proof fn lemma_stem_of_a_path(path: Seq<char>)
    requires
        file_name_of(path).len() > 0,
    ensures
        without_extension(path) == path.take(name_start(path)) + stem_of(file_name_of(path)),
{
    let start = name_start(path);
    let name = file_name_of(path);
    let dot = last_position(name, '.');
    law_file_name_holds_no_separator(path);
    law_last_position_is_last(name, '.');
    if dot <= 0 {
        assert(without_extension(path) =~= path.take(start) + name);
    } else {
        assert(path.take(start + dot) =~= path.take(start) + name.take(dot));
    }
}

proof fn lemma_name_behind_a_head(path: Seq<char>, name: Seq<char>)
    requires
        is_plain_name(name),
    ensures
        file_name_of(path.take(name_start(path)) + name) == name,
{
    let start = name_start(path);
    let head = path.take(start);
    law_file_name_holds_no_separator(path);
    lemma_plain_name_starts_at_its_beginning(name);
    lemma_name_start_of_parts(head, name);
    if start > 0 {
        assert(head.last() == path[start - 1]);
        assert(name_start(head) == head.len());
    } else {
        assert(head.len() == 0);
    }
    assert(name_start(head + name) == head.len());
    assert((head + name).skip(head.len() as int) =~= name);
}

/// A path whose last component is not empty, with its extension replaced by
/// `ext`, has the extension `ext` and lies where the path lies: only the last
/// component differs. This holds where `ext` holds no dot and no separator.
pub proof fn law_replaced_extension_is_the_extension(path: Seq<char>, ext: Seq<char>)
    requires
        file_name_of(path).len() > 0,
        is_plain_name(ext),
        !ext.contains('.'),
    ensures
        extension_of(with_extension_of(path, ext)) == Some(ext),
        with_extension_of(path, ext) == path.take(name_start(path)) + with_extension_of(
            file_name_of(path),
            ext,
        ),
        file_name_of(with_extension_of(path, ext)) == with_extension_of(file_name_of(path), ext),
        is_plain_name(with_extension_of(file_name_of(path), ext)),
{
    let head = path.take(name_start(path));
    let name = file_name_of(path);
    let stem = stem_of(name);
    let new_name = stem + seq!['.'] + ext;
    law_file_name_holds_no_separator(path);
    lemma_stem_of_a_plain_name(name);
    lemma_stem_of_a_path(path);
    law_appended_extension_is_the_extension(stem, ext);
    assert(with_extension_of(name, ext) == new_name);
    assert(with_extension_of(path, ext) =~= head + new_name);
    lemma_name_behind_a_head(path, new_name);
    lemma_plain_name_starts_at_its_beginning(new_name);
    assert(file_name_of(new_name) =~= new_name);
}

} // verus!
