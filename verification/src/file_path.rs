//! The paths of files: bytes with slashes between the components, as on Unix.
use crate::text::{
    a_text_is_split_at_every_separator, a_text_without_the_separator_is_not_split, split,
};
use vstd::prelude::*;
use vstd::std_specs::cmp::PartialEqSpecImpl;
use vstd::utf8::{encode_utf8, encode_utf8_decode_utf8, is_ascii_chars, is_ascii_chars_encode_utf8};

verus! {

/// The byte of a slash.
pub const SEPARATOR: u8 = 47;

/// The byte of a dot.
pub const DOT: u8 = 46;

/// Whether what stands between two slashes is a component: a repeated slash and a dot are none.
pub open spec fn is_name(part: Seq<u8>) -> bool {
    part.len() > 0 && part != seq![DOT]
}

/// The components among what stands between the slashes.
pub open spec fn names(parts: Seq<Seq<u8>>) -> Seq<Seq<u8>> {
    parts.filter(|part: Seq<u8>| is_name(part))
}

/// What a path stands for.
#[verifier::ext_equal]
pub struct Components {
    /// Whether it starts at the root.
    pub rooted: bool,
    /// Whether it starts with a dot.
    pub current: bool,
    /// The names from there on.
    pub names: Seq<Seq<u8>>,
}

/// The components of a path. Repeated slashes, trailing slashes and dots are ignored, but for a dot
/// at the beginning.
pub open spec fn components(path: Seq<u8>) -> Components {
    let parts = split(path, SEPARATOR);
    Components {
        rooted: path.len() > 0 && path[0] == SEPARATOR,
        current: parts[0] == seq![DOT],
        names: names(parts),
    }
}

/// Whether the bytes are a single name.
pub open spec fn is_plain(name: Seq<u8>) -> bool {
    is_name(name) && !name.contains(SEPARATOR)
}

/// The path of a file in a directory. A path that starts at the root replaces the directory.
pub open spec fn joined_path(directory: Seq<u8>, file: Seq<u8>) -> Seq<u8> {
    if file.len() > 0 && file[0] == SEPARATOR {
        file
    } else if directory.len() == 0 || directory.last() == SEPARATOR {
        directory + file
    } else {
        directory.push(SEPARATOR) + file
    }
}

/// The contents of a list of byte strings.
pub open spec fn contents(parts: Seq<Vec<u8>>) -> Seq<Seq<u8>> {
    parts.map_values(|part: Vec<u8>| part@)
}

/// Appends bytes to a byte string.
fn append_bytes(target: &mut Vec<u8>, bytes: &[u8])
    ensures
        final(target)@ == old(target)@ + bytes@,
{
    let ghost before = target@;
    for i in 0..bytes.len()
        invariant
            target@ == before + bytes@.take(i as int),
    {
        target.push(bytes[i]);
        assert(target@ =~= before + bytes@.take(i + 1));
    }
    assert(bytes@.take(bytes@.len() as int) =~= bytes@);
}

/// Returns whether two byte strings are equal.
fn equal_bytes(left: &Vec<u8>, right: &Vec<u8>) -> (same: bool)
    ensures
        same == (left@ == right@),
{
    if left.len() != right.len() {
        return false;
    }
    for i in 0..left.len()
        invariant
            left.len() == right.len(),
            forall|j: int| 0 <= j < i ==> left@[j] == right@[j],
    {
        if left[i] != right[i] {
            return false;
        }
    }
    assert(left@ =~= right@);
    true
}

/// Returns whether two lists of byte strings are equal.
fn equal_lists(left: &Vec<Vec<u8>>, right: &Vec<Vec<u8>>) -> (same: bool)
    ensures
        same == (contents(left@) == contents(right@)),
{
    if left.len() != right.len() {
        assert(contents(left@).len() != contents(right@).len());
        return false;
    }
    for i in 0..left.len()
        invariant
            left.len() == right.len(),
            forall|j: int| 0 <= j < i ==> contents(left@)[j] == contents(right@)[j],
    {
        assert(contents(left@)[i as int] == left@[i as int]@);
        assert(contents(right@)[i as int] == right@[i as int]@);
        if !equal_bytes(&left[i], &right[i]) {
            return false;
        }
    }
    assert(contents(left@) =~= contents(right@));
    true
}

/// Returns what stands between the slashes of a path.
fn split_path(path: &Vec<u8>) -> (parts: Vec<Vec<u8>>)
    ensures
        contents(parts@) == split(path@, SEPARATOR),
{
    let mut parts: Vec<Vec<u8>> = Vec::new();
    let mut part: Vec<u8> = Vec::new();
    assert(contents(parts@).push(part@) =~= split(path@.take(0), SEPARATOR));
    for i in 0..path.len()
        invariant
            contents(parts@).push(part@) == split(path@.take(i as int), SEPARATOR),
    {
        let ghost before = contents(parts@).push(part@);
        assert(path@.take(i + 1).drop_last() =~= path@.take(i as int));
        if path[i] == SEPARATOR {
            parts.push(part);
            part = Vec::new();
            assert(contents(parts@) =~= before);
            assert(part@ =~= Seq::<u8>::empty());
        } else {
            assert(before.drop_last() =~= contents(parts@));
            part.push(path[i]);
        }
    }
    let ghost before = contents(parts@).push(part@);
    parts.push(part);
    assert(contents(parts@) =~= before);
    assert(path@.take(path@.len() as int) =~= path@);
    parts
}

/// Returns the components among what stands between the slashes.
fn name_list(parts: Vec<Vec<u8>>) -> (list: Vec<Vec<u8>>)
    ensures
        contents(list@) == names(contents(parts@)),
{
    let ghost all = contents(parts@);
    let mut list: Vec<Vec<u8>> = Vec::new();
    assert(contents(list@) =~= names(all.take(0))) by {
        reveal(Seq::filter);
    }
    for i in 0..parts.len()
        invariant
            all == contents(parts@),
            contents(list@) == names(all.take(i as int)),
    {
        let ghost before = contents(list@);
        let part: &Vec<u8> = &parts[i];
        assert(all.take(i + 1) =~= all.take(i as int).push(part@));
        proof {
            lemma_names_push(all.take(i as int), part@);
        }
        let dot: bool = part.len() == 1 && part[0] == DOT;
        assert(dot == (part@ =~= seq![DOT]));
        if part.len() > 0 && !dot {
            let mut name: Vec<u8> = Vec::new();
            append_bytes(&mut name, part.as_slice());
            assert(name@ =~= part@);
            list.push(name);
            assert(contents(list@) =~= before.push(part@));
        }
    }
    assert(all.take(all.len() as int) =~= all);
    list
}

/// The path of a file or a directory.
#[derive(Clone, Debug)]
pub struct FilePath {
    bytes: Vec<u8>,
}

impl View for FilePath {
    type V = Seq<u8>;

    closed spec fn view(&self) -> Seq<u8> {
        self.bytes@
    }
}

impl FilePath {
    /// Initializes the path with the given bytes.
    pub fn new(bytes: Vec<u8>) -> (path: Self)
        ensures
            path@ == bytes@,
    {
        FilePath { bytes }
    }

    /// Initializes the path with the bytes of a text.
    pub fn from_text(text: &str) -> (path: Self)
        ensures
            path@ == encode_utf8(text@),
    {
        let mut bytes: Vec<u8> = Vec::new();
        append_bytes(&mut bytes, text.as_bytes());
        assert(bytes@ =~= encode_utf8(text@));
        FilePath { bytes }
    }

    /// Returns the bytes of the path.
    pub fn as_bytes(&self) -> (bytes: &[u8])
        ensures
            bytes@ == self@,
    {
        self.bytes.as_slice()
    }

    /// Returns the path of a file in the directory. A path that starts at the root replaces the
    /// directory.
    pub fn join(&self, file: &FilePath) -> (path: Self)
        ensures
            path@ == joined_path(self@, file@),
    {
        let mut bytes: Vec<u8> = Vec::new();
        if file.bytes.len() == 0 || file.bytes[0] != SEPARATOR {
            append_bytes(&mut bytes, self.bytes.as_slice());
            assert(bytes@ =~= self@);
            let len: usize = bytes.len();
            if len > 0 && bytes[len - 1] != SEPARATOR {
                bytes.push(SEPARATOR);
            }
        }
        append_bytes(&mut bytes, file.bytes.as_slice());
        assert(bytes@ =~= joined_path(self@, file@));
        FilePath { bytes }
    }

    /// Returns whether the paths have the same components.
    pub fn same(&self, other: &FilePath) -> (same: bool)
        ensures
            same == (components(self@) == components(other@)),
    {
        let parts = split_path(&self.bytes);
        let other_parts = split_path(&other.bytes);
        proof {
            lemma_split_len(self@);
            lemma_split_len(other@);
        }
        assert(contents(parts@)[0] == parts@[0]@);
        assert(contents(other_parts@)[0] == other_parts@[0]@);
        let rooted: bool = self.bytes.len() > 0 && self.bytes[0] == SEPARATOR;
        let other_rooted: bool = other.bytes.len() > 0 && other.bytes[0] == SEPARATOR;
        let current: bool = parts[0].len() == 1 && parts[0][0] == DOT;
        let other_current: bool = other_parts[0].len() == 1 && other_parts[0][0] == DOT;
        assert(current == (parts@[0]@ =~= seq![DOT]));
        assert(other_current == (other_parts@[0]@ =~= seq![DOT]));
        let list = name_list(parts);
        let other_list = name_list(other_parts);
        rooted == other_rooted && current == other_current && equal_lists(&list, &other_list)
    }
}

impl PartialEq for FilePath {
    /// Paths are equal if they have the same components.
    fn eq(&self, other: &Self) -> (same: bool) {
        self.same(other)
    }
}

impl PartialEqSpecImpl for FilePath {
    open spec fn obeys_eq_spec() -> bool {
        true
    }

    open spec fn eq_spec(&self, other: &Self) -> bool {
        components(self@) == components(other@)
    }
}

impl Eq for FilePath {

}

/// There is always something before the first slash.
proof fn lemma_split_len(path: Seq<u8>)
    ensures
        split(path, SEPARATOR).len() > 0,
    decreases path.len(),
{
    if path.len() > 0 {
        lemma_split_len(path.drop_last());
    }
}

/// What one more part adds to the components.
proof fn lemma_names_push(parts: Seq<Seq<u8>>, part: Seq<u8>)
    ensures
        names(parts.push(part)) == (if is_name(part) {
            names(parts).push(part)
        } else {
            names(parts)
        }),
{
    reveal(Seq::filter);
    assert(parts.push(part).drop_last() =~= parts);
}

/// Bytes without a slash extend what stands behind the last slash.
proof fn lemma_split_append(path: Seq<u8>, name: Seq<u8>)
    requires
        !name.contains(SEPARATOR),
    ensures
        split(path + name, SEPARATOR) == split(path, SEPARATOR).drop_last().push(
            split(path, SEPARATOR).last() + name,
        ),
    decreases name.len(),
{
    lemma_split_len(path);
    let parts = split(path, SEPARATOR);
    if name.len() == 0 {
        assert(path + name =~= path);
        assert(parts.last() + name =~= parts.last());
        assert(parts.drop_last().push(parts.last()) =~= parts);
    } else {
        let front = name.drop_last();
        assert forall|byte: u8| front.contains(byte) implies name.contains(byte) by {
            let i = choose|i: int| 0 <= i < front.len() && front[i] == byte;
            assert(name[i] == byte);
        }
        lemma_split_append(path, front);
        assert((path + name).drop_last() =~= path + front);
        assert((path + name).last() == name.last());
        assert(name[name.len() - 1] == name.last());
        assert(name.last() != SEPARATOR);
        let before = split(path + front, SEPARATOR);
        assert(before.drop_last() =~= parts.drop_last());
        assert((parts.last() + front).push(name.last()) =~= parts.last() + name);
    }
}

/// A slash behind a path adds nothing to it, unless the path is empty and becomes the root.
pub proof fn a_trailing_slash_is_ignored(path: Seq<u8>)
    requires
        path.len() > 0,
    ensures
        components(path.push(SEPARATOR)) == components(path),
{
    let slashed = path.push(SEPARATOR);
    let parts = split(path, SEPARATOR);
    lemma_split_len(path);
    assert(slashed.drop_last() =~= path);
    assert(split(slashed, SEPARATOR) =~= parts.push(Seq::empty()));
    lemma_names_push(parts, Seq::empty());
}

/// A file lies in its directory: the components of its path are those of the directory, and the
/// name of the file behind them.
pub proof fn a_file_lies_in_its_directory(directory: Seq<u8>, file: Seq<u8>)
    requires
        is_plain(file),
    ensures
        components(joined_path(directory, file)) == (Components {
            rooted: components(directory).rooted,
            current: components(directory).current,
            names: components(directory).names.push(file),
        }),
{
    let path = joined_path(directory, file);
    let parts = split(directory, SEPARATOR);
    lemma_split_len(directory);
    assert(file[0] != SEPARATOR) by {
        assert(file.contains(file[0]));
    }
    if directory.len() == 0 || directory.last() == SEPARATOR {
        lemma_split_append(directory, file);
        assert(parts.last() =~= Seq::<u8>::empty());
        assert(parts.last() + file =~= file);
        let front = parts.drop_last();
        assert(parts =~= front.push(parts.last()));
        lemma_names_push(front, Seq::empty());
        lemma_names_push(front, file);
        assert(split(path, SEPARATOR) == front.push(file));
        if directory.len() == 0 {
            assert(parts[0] =~= Seq::<u8>::empty());
            assert(front.push(file)[0] == file);
        } else {
            lemma_split_len(directory.drop_last());
            assert(front =~= split(directory.drop_last(), SEPARATOR));
            assert(front.push(file)[0] == parts[0]);
        }
    } else {
        let slashed = directory.push(SEPARATOR);
        assert(slashed.drop_last() =~= directory);
        let slashed_parts = split(slashed, SEPARATOR);
        assert(slashed_parts =~= parts.push(Seq::empty()));
        lemma_split_append(slashed, file);
        assert(slashed_parts.drop_last() =~= parts);
        assert(slashed_parts.last() + file =~= file);
        lemma_names_push(parts, file);
        assert(split(path, SEPARATOR) == parts.push(file));
    }
}

/// Different files of a directory are at different paths.
pub proof fn different_files_have_different_paths(
    directory: Seq<u8>,
    left: Seq<u8>,
    right: Seq<u8>,
)
    requires
        is_plain(left),
        is_plain(right),
        left != right,
    ensures
        components(joined_path(directory, left)) != components(joined_path(directory, right)),
{
    a_file_lies_in_its_directory(directory, left);
    a_file_lies_in_its_directory(directory, right);
    let before = components(directory).names;
    assert(before.push(left).last() == left);
    assert(before.push(right).last() == right);
}

/// A name is the only component of the path that it is by itself.
pub proof fn lemma_plain_path(name: Seq<u8>)
    requires
        is_plain(name),
    ensures
        components(name).names == seq![name],
{
    a_file_lies_in_its_directory(Seq::empty(), name);
    assert(name[0] != SEPARATOR) by {
        assert(name.contains(name[0]));
    }
    assert(Seq::<u8>::empty() + name =~= name);
    assert(split(Seq::<u8>::empty(), SEPARATOR) =~= Seq::<Seq<u8>>::empty().push(Seq::empty()));
    lemma_names_push(Seq::empty(), Seq::empty());
    assert(names(Seq::<Seq<u8>>::empty()) =~= Seq::<Seq<u8>>::empty()) by {
        reveal(Seq::filter);
    }
    assert(Seq::<Seq<u8>>::empty().push(name) =~= seq![name]);
}

/// Whether a character of a name is an ASCII character other than a slash.
pub open spec fn is_plain_char(c: char) -> bool {
    '\0' <= c <= '\u{7f}' && c != '/'
}

/// Whether a text is made of ASCII characters other than a slash.
pub open spec fn is_plain_text(text: Seq<char>) -> bool {
    forall|i: int| 0 <= i < text.len() ==> is_plain_char(#[trigger] text[i])
}

/// A text of two or more ASCII characters without a slash is a single name.
pub proof fn lemma_plain_text(text: Seq<char>)
    requires
        is_plain_text(text),
        text.len() > 1,
    ensures
        is_plain(encode_utf8(text)),
{
    assert forall|i: int| 0 <= i < text.len() implies '\0' <= #[trigger] text[i] <= '\u{7f}' by {
        assert(is_plain_char(text[i]));
    }
    assert(is_ascii_chars(text));
    is_ascii_chars_encode_utf8(text);
    let bytes = encode_utf8(text);
    if bytes.contains(SEPARATOR) {
        let i = choose|i: int| 0 <= i < bytes.len() && bytes[i] == SEPARATOR;
        assert(text[i] as u8 == SEPARATOR);
        assert(is_plain_char(text[i]));
    }
}

/// Different texts have different bytes.
pub proof fn lemma_encoding_injective(left: Seq<char>, right: Seq<char>)
    requires
        encode_utf8(left) == encode_utf8(right),
    ensures
        left == right,
{
    encode_utf8_decode_utf8(left);
    encode_utf8_decode_utf8(right);
}

/// What stands between two slashes is ignored exactly if it is nothing, or a single dot.
pub proof fn only_nothing_and_a_dot_are_ignored(part: Seq<u8>)
    ensures
        is_name(part) <==> part.len() > 1 || (part.len() == 1 && part[0] != 46),
{
    if part.len() == 1 && part[0] == 46 {
        assert(part =~= seq![DOT]);
    }
}

/// The names of a path are those before any slash in it and those behind it.
pub proof fn a_slash_parts_the_names(left: Seq<u8>, right: Seq<u8>)
    ensures
        components(left.push(47) + right).names == components(left).names + components(right).names,
{
    a_text_is_split_at_every_separator(left, right, SEPARATOR);
    Seq::filter_distributes_over_add(
        split(left, SEPARATOR),
        split(right, SEPARATOR),
        |part: Seq<u8>| is_name(part),
    );
}

/// Bytes without a slash are one name, unless they are ignored.
pub proof fn bytes_without_a_slash_are_one_name(name: Seq<u8>)
    requires
        !name.contains(47),
    ensures
        components(name).names == (if is_name(name) {
            seq![name]
        } else {
            Seq::empty()
        }),
{
    a_text_without_the_separator_is_not_split(name, SEPARATOR);
    reveal(Seq::filter);
    assert(seq![name] =~= Seq::<Seq<u8>>::empty().push(name));
    lemma_names_push(Seq::empty(), name);
    assert(names(Seq::<Seq<u8>>::empty()) =~= Seq::<Seq<u8>>::empty());
    assert(Seq::<Seq<u8>>::empty().push(name) =~= seq![name]);
}

/// A path starts at the root exactly if it starts with a slash, and with a dot exactly if what stands
/// before its first slash is one.
pub proof fn the_start_of_a_path_is_told_by_its_first_part(
    path: Seq<u8>,
    first: Seq<u8>,
    rest: Seq<u8>,
)
    requires
        !first.contains(47),
    ensures
        components(path).rooted <==> path.len() > 0 && path[0] == 47,
        components(first).current <==> first.len() == 1 && first[0] == 46,
        components(first.push(47) + rest).current <==> first.len() == 1 && first[0] == 46,
{
    a_text_without_the_separator_is_not_split(first, SEPARATOR);
    a_text_is_split_at_every_separator(first, rest, SEPARATOR);
    assert((seq![first] + split(rest, SEPARATOR))[0] == first);
    if first.len() == 1 && first[0] == 46 {
        assert(first =~= seq![DOT]);
    }
}

/// A file that is named from the root is where it says, whatever the directory. Every other one is in
/// the directory: its path starts with the directory and ends with the file, with one slash between
/// them where the directory has none at its end.
pub proof fn a_joined_path_is_made_of_its_parts(directory: Seq<u8>, file: Seq<u8>)
    ensures
        file.len() > 0 && file[0] == 47 ==> joined_path(directory, file) == file,
        file.len() == 0 || file[0] != 47 ==> {
            let path = joined_path(directory, file);
            let slash: int = if directory.len() == 0 || directory.last() == 47 {
                0
            } else {
                1
            };
            &&& path.len() == directory.len() + slash + file.len()
            &&& path.take(directory.len() as int) == directory
            &&& path.skip(directory.len() + slash) == file
            &&& slash == 1 ==> path[directory.len() as int] == 47
        },
{
    if file.len() == 0 || file[0] != 47 {
        let path = joined_path(directory, file);
        let slash: int = if directory.len() == 0 || directory.last() == 47 {
            0
        } else {
            1
        };
        assert(path.take(directory.len() as int) =~= directory);
        assert(path.skip(directory.len() + slash) =~= file);
    }
}

/// The contents of a list of byte strings stand at their places.
pub proof fn contents_are_those_of_the_parts(parts: Seq<Vec<u8>>)
    ensures
        contents(parts).len() == parts.len(),
        forall|i: int| 0 <= i < parts.len() ==> #[trigger] contents(parts)[i] == parts[i]@,
{
}

} // verus!
