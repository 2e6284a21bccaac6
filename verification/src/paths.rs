//! Slash-separated path names.
use crate::bytes;
use crate::bytes::same_bytes;
use crate::text::chars_of;
use vstd::prelude::*;

verus! {

/// How much of the first `n` characters is left without trailing separators and `.` components.
pub open spec fn meaningful_len(s: Seq<char>, n: int) -> int
    decreases n,
{
    if 0 < n <= s.len() && s[n - 1] == '/' {
        meaningful_len(s, n - 1)
    } else if 2 <= n <= s.len() && s[n - 1] == '.' && s[n - 2] == '/' {
        meaningful_len(s, n - 1)
    } else {
        n
    }
}

/// Where the component that ends at `n` starts.
pub open spec fn component_start(s: Seq<char>, n: int) -> int
    decreases n,
{
    if 0 < n <= s.len() && s[n - 1] != '/' {
        component_start(s, n - 1)
    } else {
        n
    }
}

/// The last component of a path, unless the path ends in `..` or has no named component.
///
/// Repeated and trailing separators do not count, and neither does a `.` component behind
/// another component.
pub open spec fn path_file_name(s: Seq<char>) -> Option<Seq<char>> {
    let end = meaningful_len(s, s.len() as int);
    let name = s.subrange(component_start(s, end), end);
    if name.len() == 0 || name == seq!['.'] || name == seq!['.', '.'] {
        None
    } else {
        Some(name)
    }
}

/// The name by which a program is known: the file name of its path, or the whole text where
/// that has no file name.
pub open spec fn base_name(s: Seq<char>) -> Seq<char> {
    match path_file_name(s) {
        Some(name) => name,
        None => s,
    }
}

proof fn lemma_meaningful_len(s: Seq<char>, n: int)
    requires
        0 <= n <= s.len(),
    ensures
        0 <= meaningful_len(s, n) <= n,
    decreases n,
{
    if 0 < n && s[n - 1] == '/' {
        lemma_meaningful_len(s, n - 1);
    } else if 2 <= n && s[n - 1] == '.' && s[n - 2] == '/' {
        lemma_meaningful_len(s, n - 1);
    }
}

proof fn lemma_component_start(s: Seq<char>, n: int)
    requires
        0 <= n <= s.len(),
    ensures
        0 <= component_start(s, n) <= n,
    decreases n,
{
    if 0 < n && s[n - 1] != '/' {
        lemma_component_start(s, n - 1);
    }
}

/// The name by which a program given by a path is known.
pub fn command_base(path: &str) -> (result: &str)
    ensures
        result@ == base_name(path@),
{
    let chars = chars_of(path);
    let mut end: usize = chars.len();
    while end > 0 && (chars[end - 1] == '/' || (end >= 2 && chars[end - 1] == '.' && chars[end - 2]
        == '/'))
        invariant
            chars@ == path@,
            end <= chars.len(),
            meaningful_len(path@, path@.len() as int) == meaningful_len(path@, end as int),
        decreases end,
    {
        end = end - 1;
    }
    let mut start: usize = end;
    while start > 0 && chars[start - 1] != '/'
        invariant
            chars@ == path@,
            start <= end <= chars.len(),
            component_start(path@, end as int) == component_start(path@, start as int),
        decreases start,
    {
        start = start - 1;
    }
    let ghost name = path@.subrange(start as int, end as int);
    if start == end {
        return path;
    }
    if end - start == 1 && chars[start] == '.' {
        assert(name =~= seq!['.']);
        return path;
    }
    if end - start == 2 && chars[start] == '.' && chars[start + 1] == '.' {
        assert(name =~= seq!['.', '.']);
        return path;
    }
    proof {
        if name == seq!['.'] {
            assert(name[0] == '.');
        }
        if name == seq!['.', '.'] {
            assert(name[0] == '.' && name[1] == '.');
        }
    }
    path.substring_char(start, end)
}

/// Where the component that begins at `i` ends.
pub open spec fn segment_end(path: Seq<u8>, i: int) -> int
    decreases path.len() - i,
{
    if 0 <= i < path.len() && path[i] != 47 {
        segment_end(path, i + 1)
    } else {
        i
    }
}

/// A component ends at or behind its beginning, within the path.
pub proof fn lemma_segment_end(path: Seq<u8>, i: int)
    requires
        0 <= i <= path.len(),
    ensures
        i <= segment_end(path, i) <= path.len(),
    decreases path.len() - i,
{
    if i < path.len() && path[i] != 47 {
        lemma_segment_end(path, i + 1);
    }
}

/// The components of a path from `i` on, where one begins. Repeated and trailing separators do not
/// count, and neither does a `.` component, unless the path begins with it.
pub open spec fn components_from(path: Seq<u8>, i: int) -> Seq<Seq<u8>>
    decreases path.len() + 1 - i,
{
    if i < 0 || i > path.len() {
        Seq::empty()
    } else {
        proof {
            lemma_segment_end(path, i);
        }
        let end = segment_end(path, i);
        let component = path.subrange(i, end);
        let rest = components_from(path, end + 1);
        if component.len() == 0 || (component == seq![46u8] && i > 0) {
            rest
        } else {
            seq![component] + rest
        }
    }
}

/// Two paths name the same place without a look at the file system: both or neither begin at the
/// root, and their components are the same.
pub open spec fn names_same_path(a: Seq<u8>, b: Seq<u8>) -> bool {
    &&& (a.len() > 0 && a[0] == 47) == (b.len() > 0 && b[0] == 47)
    &&& components_from(a, 0) == components_from(b, 0)
}

fn copy_range(path: &Vec<u8>, start: usize, end: usize) -> (part: Vec<u8>)
    requires
        start <= end <= path.len(),
    ensures
        part@ == path@.subrange(start as int, end as int),
{
    let mut part: Vec<u8> = Vec::new();
    for i in start..end
        invariant
            start <= end <= path.len(),
            part@ == path@.subrange(start as int, i as int),
    {
        part.push(path[i]);
        assert(path@.subrange(start as int, i + 1) =~= path@.subrange(start as int, i as int).push(
            path@[i as int],
        ));
    }
    part
}

fn components(path: &Vec<u8>) -> (parts: Vec<Vec<u8>>)
    ensures
        bytes::blobs(parts@) == components_from(path@, 0),
{
    let mut parts: Vec<Vec<u8>> = Vec::new();
    let mut start: usize = 0;
    assert(bytes::blobs(parts@) + components_from(path@, 0) =~= components_from(path@, 0));
    loop
        invariant
            start <= path.len(),
            bytes::blobs(parts@) + components_from(path@, start as int) == components_from(
                path@,
                0,
            ),
        decreases path.len() - start,
    {
        let mut end: usize = start;
        while end < path.len() && path[end] != 47
            invariant
                start <= end <= path.len(),
                segment_end(path@, start as int) == segment_end(path@, end as int),
            decreases path.len() - end,
        {
            end = end + 1;
        }
        let ghost component = path@.subrange(start as int, end as int);
        let ghost before = bytes::blobs(parts@);
        let ghost rest = components_from(path@, end + 1);
        let dot = end - start == 1 && path[start] == 46;
        assert(dot ==> component =~= seq![46u8]);
        assert(component == seq![46u8] ==> component[0] == 46u8 && component.len() == 1);
        if end > start && !(dot && start > 0) {
            let part = copy_range(path, start, end);
            let ghost old_parts = parts@;
            parts.push(part);
            assert(bytes::blobs(parts@) =~= before.push(component));
            assert(before + (seq![component] + rest) =~= before.push(component) + rest);
        }
        if end >= path.len() {
            assert(rest =~= Seq::<Seq<u8>>::empty());
            assert(bytes::blobs(parts@) + rest =~= bytes::blobs(parts@));
            return parts;
        }
        start = end + 1;
    }
}

/// Whether two paths name the same place without a look at the file system.
pub fn same_path(a: &Vec<u8>, b: &Vec<u8>) -> (result: bool)
    ensures
        result == names_same_path(a@, b@),
{
    let a_is_absolute = a.len() > 0 && a[0] == 47;
    let b_is_absolute = b.len() > 0 && b[0] == 47;
    if a_is_absolute != b_is_absolute {
        return false;
    }
    let left = components(a);
    let right = components(b);
    let ghost left_views = bytes::blobs(left@);
    let ghost right_views = bytes::blobs(right@);
    assert(left_views.len() == left.len());
    assert(right_views.len() == right.len());
    if left.len() != right.len() {
        return false;
    }
    for i in 0..left.len()
        invariant
            left.len() == right.len(),
            left_views == bytes::blobs(left@),
            right_views == bytes::blobs(right@),
            left_views == components_from(a@, 0),
            right_views == components_from(b@, 0),
            forall|j: int| 0 <= j < i ==> #[trigger] left_views[j] == right_views[j],
    {
        assert(left_views[i as int] == left@[i as int]@);
        assert(right_views[i as int] == right@[i as int]@);
        if !same_bytes(&left[i], &right[i]) {
            return false;
        }
    }
    assert(left_views =~= right_views);
    true
}

proof fn lemma_component_found(s: Seq<char>, from: int, n: int)
    requires
        0 <= from <= n <= s.len(),
        from == 0 || s[from - 1] == '/',
        forall|i: int| from <= i < n ==> #[trigger] s[i] != '/',
    ensures
        component_start(s, n) == from,
    decreases n,
{
    if from < n {
        assert(s[n - 1] != '/');
        lemma_component_found(s, from, n - 1);
    }
}

proof fn lemma_trailing_slashes(s: Seq<char>, n: int, m: int)
    requires
        0 <= n <= m <= s.len(),
        forall|i: int| n <= i < m ==> #[trigger] s[i] == '/',
    ensures
        meaningful_len(s, m) == meaningful_len(s, n),
    decreases m,
{
    if n < m {
        assert(s[m - 1] == '/');
        lemma_trailing_slashes(s, n, m - 1);
    }
}

/// A program is known by the last part of its path, wherever it stands: a directory before it and
/// slashes behind it have no part in its name.
pub proof fn program_is_known_by_its_last_part(
    directory: Seq<char>,
    name: Seq<char>,
    slashes: Seq<char>,
    path: &str,
    bare: &str,
    result: &str,
    bare_result: &str,
)
    requires
        call_ensures(command_base, (path,), result),
        call_ensures(command_base, (bare,), bare_result),
        0 < name.len(),
        forall|i: int| 0 <= i < name.len() ==> #[trigger] name[i] != '/',
        name != seq!['.'],
        name != seq!['.', '.'],
        forall|i: int| 0 <= i < slashes.len() ==> #[trigger] slashes[i] == '/',
        path@ == directory + seq!['/'] + name + slashes,
        bare@ == name,
    ensures
        result@ == name,
        bare_result@ == name,
{
    let s = path@;
    let from = (directory.len() + 1) as int;
    let to = (directory.len() + 1 + name.len()) as int;
    assert forall|i: int| to <= i < s.len() implies #[trigger] s[i] == '/' by {
        assert(s[i] == slashes[i - to]);
    }
    assert forall|i: int| from <= i < to implies #[trigger] s[i] != '/' by {
        assert(s[i] == name[i - from]);
    }
    assert(s[from - 1] == '/');
    lemma_trailing_slashes(s, to, s.len() as int);
    assert(s[to - 1] == name[name.len() - 1]);
    if name.len() == 1 {
        assert(name =~= seq![name[0]]);
        assert(name[0] != '.');
    }
    if name.len() >= 2 {
        assert(s[to - 2] == name[name.len() - 2]);
    }
    assert(meaningful_len(s, to) == to);
    lemma_component_found(s, from, to);
    assert(s.subrange(from, to) =~= name);
    if name.len() >= 2 {
        assert(name[name.len() - 2] != '/');
    }
    assert(name[name.len() - 1] != '/');
    assert(meaningful_len(name, name.len() as int) == name.len());
    lemma_component_found(name, 0, name.len() as int);
    assert(name.subrange(0, name.len() as int) =~= name);
}

/// A path without a last part that is a name is known as it stands.
pub proof fn nameless_path_is_known_as_it_stands(path: &str, result: &str)
    requires
        call_ensures(command_base, (path,), result),
        forall|i: int| 0 <= i < path@.len() ==> #[trigger] path@[i] == '/',
    ensures
        result@ == path@,
{
    lemma_trailing_slashes(path@, 0, path@.len() as int);
    assert(path@.subrange(0, 0).len() == 0);
}

/// Naming the same place is an equivalence of paths. A path that begins at the root never names the
/// place of one that does not.
pub proof fn same_place_is_an_equivalence(
    a: &Vec<u8>,
    b: &Vec<u8>,
    c: &Vec<u8>,
    itself: bool,
    there: bool,
    back: bool,
    on: bool,
    across: bool,
)
    requires
        call_ensures(same_path, (a, a), itself),
        call_ensures(same_path, (a, b), there),
        call_ensures(same_path, (b, a), back),
        call_ensures(same_path, (b, c), on),
        call_ensures(same_path, (a, c), across),
    ensures
        itself,
        there == back,
        there && on ==> across,
        a@.len() > 0 && a@[0] == 47 && (b@.len() == 0 || b@[0] != 47) ==> !there,
{
}

proof fn lemma_one_segment(path: Seq<u8>, i: int)
    requires
        0 <= i <= path.len(),
        forall|k: int| 0 <= k < path.len() ==> #[trigger] path[k] != 47,
    ensures
        segment_end(path, i) == path.len(),
    decreases path.len() - i,
{
    if i < path.len() {
        lemma_one_segment(path, i + 1);
    }
}

/// Two names in one directory are the same place exactly where they are the same name.
pub proof fn different_names_are_different_places(a: &Vec<u8>, b: &Vec<u8>, result: bool)
    requires
        call_ensures(same_path, (a, b), result),
        a@.len() > 0,
        b@.len() > 0,
        forall|k: int| 0 <= k < a@.len() ==> #[trigger] a@[k] != 47,
        forall|k: int| 0 <= k < b@.len() ==> #[trigger] b@[k] != 47,
    ensures
        result <==> a@ == b@,
{
    lemma_one_segment(a@, 0);
    lemma_one_segment(b@, 0);
    assert(a@.subrange(0, a@.len() as int) =~= a@);
    assert(b@.subrange(0, b@.len() as int) =~= b@);
    assert(components_from(a@, 0)[0] == a@);
    assert(components_from(b@, 0)[0] == b@);
}

proof fn lemma_segment_before_slash(path: Seq<u8>, i: int)
    requires
        0 <= i <= path.len(),
    ensures
        segment_end(path.push(47u8), i) == segment_end(path, i),
    decreases path.len() - i,
{
    let longer = path.push(47u8);
    if i < path.len() {
        assert(longer[i] == path[i]);
        if path[i] != 47 {
            lemma_segment_before_slash(path, i + 1);
        }
    }
}

proof fn lemma_components_before_slash(path: Seq<u8>, i: int)
    requires
        0 <= i <= path.len(),
    ensures
        components_from(path.push(47u8), i) == components_from(path, i),
    decreases path.len() - i,
{
    let longer = path.push(47u8);
    lemma_segment_end(path, i);
    lemma_segment_before_slash(path, i);
    let end = segment_end(path, i);
    assert(longer.subrange(i, end) =~= path.subrange(i, end));
    if end < path.len() {
        lemma_components_before_slash(path, end + 1);
    } else {
        assert(longer.subrange(longer.len() as int, longer.len() as int).len() == 0);
        assert(segment_end(longer, longer.len() as int) == longer.len());
        assert(components_from(longer, longer.len() as int + 1) =~= Seq::<Seq<u8>>::empty());
        assert(components_from(longer, end + 1) =~= Seq::<Seq<u8>>::empty());
        assert(components_from(path, end + 1) =~= Seq::<Seq<u8>>::empty());
    }
}

/// A slash behind a path does not change the place.
pub proof fn slash_behind_a_path_does_not_matter(a: &Vec<u8>, b: &Vec<u8>, result: bool)
    requires
        call_ensures(same_path, (a, b), result),
        a@.len() > 0,
        b@ == a@.push(47u8),
    ensures
        result,
{
    lemma_components_before_slash(a@, 0);
}

} // verus!
