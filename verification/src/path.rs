//! The paths of a Unix file system as plain values.
use vstd::prelude::*;

verus! {

/// The byte that separates the components of a path.
pub const SEPARATOR: u8 = 0x2f;

/// The byte of the component that names the current directory.
pub const DOT: u8 = 0x2e;

/// What a path means: whether it starts at the root, and its components in order.
#[verifier::ext_equal]
pub struct PathView {
    pub absolute: bool,
    pub components: Seq<Seq<u8>>,
}

/// A piece between two separators that counts as a component anywhere: repeated separators and `.`
/// do not.
pub open spec fn is_named(piece: Seq<u8>) -> bool {
    piece.len() > 0 && piece != seq![DOT]
}

/// The components so far, once `piece` is complete. A `.` counts only where it is `leading`, that
/// is, where the text begins with it.
pub open spec fn keep(components: Seq<Seq<u8>>, piece: Seq<u8>, leading: bool) -> Seq<Seq<u8>> {
    if is_named(piece) || leading && piece == seq![DOT] {
        components.push(piece)
    } else {
        components
    }
}

/// The components that are complete at the end of `text`, and the piece that is still open there.
pub open spec fn scan(text: Seq<u8>) -> (Seq<Seq<u8>>, Seq<u8>)
    decreases text.len(),
{
    if text.len() == 0 {
        (Seq::empty(), Seq::empty())
    } else {
        let (components, piece) = scan(text.drop_last());
        if text.last() == SEPARATOR {
            (keep(components, piece, piece.len() == text.len() - 1), Seq::empty())
        } else {
            (components, piece.push(text.last()))
        }
    }
}

/// The path that `text` spells.
pub open spec fn parsed(text: Seq<u8>) -> PathView {
    PathView {
        absolute: text.len() > 0 && text[0] == SEPARATOR,
        components: keep(scan(text).0, scan(text).1, scan(text).1.len() == text.len()),
    }
}

/// The components with one separator between each two of them.
pub open spec fn separated(components: Seq<Seq<u8>>) -> Seq<u8>
    decreases components.len(),
{
    if components.len() == 0 {
        Seq::empty()
    } else if components.len() == 1 {
        components[0]
    } else {
        separated(components.drop_last()).push(SEPARATOR) + components.last()
    }
}

/// Whether `component` can be any component of a path.
pub open spec fn is_component(component: Seq<u8>) -> bool {
    is_named(component) && !component.contains(SEPARATOR)
}

/// Whether `component` can stand at `index` in a path: a relative path can begin with `.`.
pub open spec fn is_component_at(component: Seq<u8>, index: int, absolute: bool) -> bool {
    is_component(component) || index == 0 && !absolute && component == seq![DOT]
}

impl PathView {
    /// Each component is one: not empty, without a separator, and `.` only at the start of a
    /// relative path.
    pub open spec fn well_formed(self) -> bool {
        forall|i: int|
            0 <= i < self.components.len() ==> is_component_at(
                #[trigger] self.components[i],
                i,
                self.absolute,
            )
    }

    /// Whether this is the path that the empty text spells.
    pub open spec fn is_empty(self) -> bool {
        !self.absolute && self.components.len() == 0
    }

    /// Whether the path begins with `.`.
    pub open spec fn is_dotted(self) -> bool {
        self.components.len() > 0 && self.components[0] == seq![DOT]
    }

    /// The path without the `.` at its start.
    pub open spec fn undotted(self) -> PathView {
        if self.is_dotted() {
            PathView { absolute: self.absolute, components: self.components.skip(1) }
        } else {
            self
        }
    }

    /// The path `other`, taken from `self` on: an absolute `other` stands for itself.
    pub open spec fn join(self, other: PathView) -> PathView {
        if other.absolute || self.is_empty() {
            other
        } else {
            PathView {
                absolute: self.absolute,
                components: self.components + other.undotted().components,
            }
        }
    }

    /// `self` joined with the path that `text` spells.
    pub open spec fn join_text(self, text: Seq<char>) -> PathView {
        self.join(parsed(vstd::utf8::encode_utf8(text)))
    }

    /// Whether `base` is `self` or one of the directories above it. The empty path is above every
    /// path.
    pub open spec fn starts_with(self, base: PathView) -> bool {
        base.is_empty() || self.absolute == base.absolute && base.components.is_prefix_of(
            self.components,
        )
    }

    /// What `self` is below `base`.
    pub open spec fn strip_prefix(self, base: PathView) -> Option<PathView> {
        if base.is_empty() {
            Some(self)
        } else if self.starts_with(base) {
            Some(
                PathView {
                    absolute: false,
                    components: self.components.skip(base.components.len() as int),
                },
            )
        } else {
            None
        }
    }

    /// The path without its last component.
    pub open spec fn parent(self) -> Option<PathView> {
        if self.components.len() == 0 {
            None
        } else {
            Some(PathView { absolute: self.absolute, components: self.components.drop_last() })
        }
    }

    /// The bytes that spell the path.
    pub open spec fn rendered(self) -> Seq<u8> {
        if self.absolute {
            seq![SEPARATOR] + separated(self.components)
        } else {
            separated(self.components)
        }
    }
}

/// A path that holds no text of its own: only what [`PathView`] says of it.
///
/// Two spellings of one path, such as `/a//b/./c` and `/a/b/c`, are one value; a `.` at the start of
/// a relative path is kept.
#[derive(Debug, PartialEq, Eq)]
pub struct FilePath {
    absolute: bool,
    components: Vec<Vec<u8>>,
}

impl View for FilePath {
    type V = PathView;

    closed spec fn view(&self) -> PathView {
        PathView {
            absolute: self.absolute,
            components: self.components@.map_values(|component: Vec<u8>| component@),
        }
    }
}

impl Clone for FilePath {
    fn clone(&self) -> (path: Self)
        ensures
            path@ == self@,
    {
        proof {
            use_type_invariant(self);
        }
        let components = copied(&self.components, 0);
        assert(components@.map_values(|component: Vec<u8>| component@) =~= self@.components);
        FilePath { absolute: self.absolute, components }
    }
}

/// Copies the components from `start` on.
fn copied(components: &Vec<Vec<u8>>, start: usize) -> (copy: Vec<Vec<u8>>)
    requires
        start <= components@.len(),
    ensures
        copy@.len() == components@.len() - start,
        forall|i: int| 0 <= i < copy@.len() ==> (#[trigger] copy@[i])@ == components@[start + i]@,
{
    let mut copy: Vec<Vec<u8>> = Vec::new();
    let mut next: usize = start;
    while next < components.len()
        invariant
            start <= next <= components@.len(),
            copy@.len() == next - start,
            forall|i: int| 0 <= i < copy@.len() ==> (#[trigger] copy@[i])@ == components@[start + i]@,
        decreases components@.len() - next,
    {
        copy.push(vstd::slice::slice_to_vec(components[next].as_slice()));
        next += 1;
    }
    copy
}

/// Whether a piece of a path is `.`.
fn is_dot(piece: &Vec<u8>) -> (dot: bool)
    ensures
        dot == (piece@ == seq![DOT]),
{
    let dot: bool = piece.len() == 1 && piece[0] == DOT;
    assert(dot ==> piece@ =~= seq![DOT]);
    dot
}

/// Whether two components are the same bytes.
fn same_bytes(left: &Vec<u8>, right: &Vec<u8>) -> (same: bool)
    ensures
        same == (left@ == right@),
{
    if left.len() != right.len() {
        return false;
    }
    let mut next: usize = 0;
    while next < left.len()
        invariant
            next <= left@.len() == right@.len(),
            forall|i: int| 0 <= i < next ==> left@[i] == right@[i],
        decreases left@.len() - next,
    {
        if left[next] != right[next] {
            return false;
        }
        next += 1;
    }
    assert(left@ =~= right@);
    true
}

impl FilePath {
    #[verifier::type_invariant]
    spec fn holds_components(self) -> bool {
        self@.well_formed()
    }

    /// Reads the path that `text` spells.
    pub fn parse(text: &[u8]) -> (path: FilePath)
        ensures
            path@ == parsed(text@),
            path@.well_formed(),
    {
        let mut components: Vec<Vec<u8>> = Vec::new();
        let mut piece: Vec<u8> = Vec::new();
        let mut next: usize = 0;
        while next < text.len()
            invariant
                next <= text@.len(),
                components@.map_values(|component: Vec<u8>| component@) == scan(
                    text@.take(next as int),
                ).0,
                piece@ == scan(text@.take(next as int)).1,
            decreases text@.len() - next,
        {
            assert(text@.take(next + 1).drop_last() =~= text@.take(next as int));
            let byte: u8 = text[next];
            if byte == SEPARATOR {
                let leading: bool = piece.len() == next;
                Self::close_piece(&mut components, piece, leading);
                piece = Vec::new();
            } else {
                piece.push(byte);
            }
            next += 1;
        }
        assert(text@.take(text@.len() as int) =~= text@);
        let leading: bool = piece.len() == text.len();
        Self::close_piece(&mut components, piece, leading);
        proof {
            parsed_is_well_formed(text@);
        }
        let absolute: bool = text.len() > 0 && text[0] == SEPARATOR;
        assert((PathView {
            absolute,
            components: components@.map_values(|component: Vec<u8>| component@),
        }) == parsed(text@));
        FilePath { absolute, components }
    }

    /// Adds `piece` to the components, if it counts as one.
    fn close_piece(components: &mut Vec<Vec<u8>>, piece: Vec<u8>, leading: bool)
        ensures
            final(components)@.map_values(|component: Vec<u8>| component@) == keep(
                old(components)@.map_values(|component: Vec<u8>| component@),
                piece@,
                leading,
            ),
    {
        let ghost before = components@.map_values(|component: Vec<u8>| component@);
        let ghost text = piece@;
        if piece.len() > 0 && (leading || !is_dot(&piece)) {
            components.push(piece);
            assert(components@.map_values(|component: Vec<u8>| component@) =~= before.push(text));
        }
    }

    /// Whether the path starts at the root.
    pub fn is_absolute(&self) -> (absolute: bool)
        ensures
            absolute == self@.absolute,
    {
        self.absolute
    }

    /// How many components the path has.
    pub fn component_count(&self) -> (count: usize)
        ensures
            count == self@.components.len(),
    {
        self.components.len()
    }

    /// The bytes of a component.
    pub fn component(&self, index: usize) -> (bytes: &[u8])
        requires
            index < self@.components.len(),
        ensures
            bytes@ == self@.components[index as int],
    {
        self.components[index].as_slice()
    }

    /// The path `other`, taken from this one on.
    pub fn join(&self, other: &FilePath) -> (path: FilePath)
        ensures
            path@ == self@.join(other@),
            path@.well_formed(),
    {
        proof {
            use_type_invariant(self);
            use_type_invariant(other);
        }
        if other.absolute || (!self.absolute && self.components.len() == 0) {
            return other.clone();
        }
        let start: usize = if other.components.len() > 0 && is_dot(&other.components[0]) {
            1
        } else {
            0
        };
        assert(other@.components.len() > 0 ==> other@.components[0] == other.components@[0]@);
        let mut components = copied(&self.components, 0);
        let mut rest = copied(&other.components, start);
        components.append(&mut rest);
        assert(components@.map_values(|component: Vec<u8>| component@)
            =~= self@.join(other@).components);
        proof {
            join_is_well_formed(self@, other@);
        }
        FilePath { absolute: self.absolute, components }
    }

    /// This path joined with the one that `text` spells.
    pub fn join_text(&self, text: &str) -> (path: FilePath)
        ensures
            path@ == self@.join_text(text@),
            path@.well_formed(),
    {
        self.join(&FilePath::parse(text.as_bytes()))
    }

    /// Whether `base` is this path or one of the directories above it.
    pub fn starts_with(&self, base: &FilePath) -> (inside: bool)
        ensures
            inside == self@.starts_with(base@),
    {
        if !base.absolute && base.components.len() == 0 {
            return true;
        }
        if self.absolute != base.absolute || base.components.len() > self.components.len() {
            return false;
        }
        let mut next: usize = 0;
        while next < base.components.len()
            invariant
                next <= base.components@.len() <= self.components@.len(),
                forall|i: int| 0 <= i < next ==> base@.components[i] == self@.components[i],
            decreases base.components@.len() - next,
        {
            if !same_bytes(&base.components[next], &self.components[next]) {
                assert(base@.components[next as int] != self@.components[next as int]);
                assert(!base@.components.is_prefix_of(self@.components)) by {
                    if base@.components.is_prefix_of(self@.components) {
                        assert(self@.components.subrange(0, base@.components.len() as int)[next as int]
                            == self@.components[next as int]);
                    }
                }
                return false;
            }
            assert(base@.components[next as int] == self@.components[next as int]);
            next += 1;
        }
        assert(base@.components =~= self@.components.subrange(0, base@.components.len() as int));
        true
    }

    /// What this path is below `base`, if it is `base` or below it.
    pub fn strip_prefix(&self, base: &FilePath) -> (relative: Option<FilePath>)
        ensures
            relative is Some <==> self@.strip_prefix(base@) is Some,
            relative matches Some(path) ==> Some(path@) == self@.strip_prefix(base@)
                && path@.well_formed(),
    {
        proof {
            use_type_invariant(self);
        }
        if !self.starts_with(base) {
            return None;
        }
        if !base.absolute && base.components.len() == 0 {
            return Some(self.clone());
        }
        let components = copied(&self.components, base.components.len());
        assert(components@.map_values(|component: Vec<u8>| component@) =~= self@.components.skip(
            base@.components.len() as int,
        ));
        Some(FilePath { absolute: false, components })
    }

    /// The path without its last component; a path without components has none.
    pub fn parent(&self) -> (parent: Option<FilePath>)
        ensures
            parent is Some <==> self@.parent() is Some,
            parent matches Some(path) ==> Some(path@) == self@.parent() && path@.well_formed(),
    {
        proof {
            use_type_invariant(self);
        }
        if self.components.len() == 0 {
            return None;
        }
        let mut components = copied(&self.components, 0);
        components.pop();
        assert(components@.map_values(|component: Vec<u8>| component@)
            =~= self@.components.drop_last());
        Some(FilePath { absolute: self.absolute, components })
    }

    /// The bytes that spell the path, with one separator between each two components.
    pub fn to_bytes(&self) -> (text: Vec<u8>)
        ensures
            text@ == self@.rendered(),
            parsed(text@) == self@,
    {
        proof {
            use_type_invariant(self);
        }
        let mut text: Vec<u8> = Vec::new();
        if self.absolute {
            text.push(SEPARATOR);
        }
        let ghost start = text@;
        let mut next: usize = 0;
        while next < self.components.len()
            invariant
                next <= self.components@.len(),
                text@ == start + separated(self@.components.take(next as int)),
            decreases self.components@.len() - next,
        {
            let ghost before = self@.components.take(next as int);
            let ghost after = self@.components.take(next + 1);
            assert(after.drop_last() =~= before);
            assert(after.last() == self.components@[next as int]@);
            if next > 0 {
                text.push(SEPARATOR);
            }
            let mut component = vstd::slice::slice_to_vec(self.components[next].as_slice());
            text.append(&mut component);
            assert(text@ =~= start + separated(after));
            next += 1;
        }
        assert(self@.components.take(next as int) =~= self@.components);
        assert(text@ =~= self@.rendered());
        proof {
            parse_reads_back_rendered(self@);
        }
        text
    }
}

/// A text without a separator only lengthens the open piece.
proof fn scan_extends_piece(text: Seq<u8>, piece: Seq<u8>)
    requires
        !piece.contains(SEPARATOR),
    ensures
        scan(text + piece) == (scan(text).0, scan(text).1 + piece),
    decreases piece.len(),
{
    if piece.len() == 0 {
        assert(text + piece =~= text);
        assert(scan(text).1 + piece =~= scan(text).1);
    } else {
        let shorter = piece.drop_last();
        assert(!shorter.contains(SEPARATOR)) by {
            assert forall|i: int| 0 <= i < shorter.len() implies shorter[i] != SEPARATOR by {
                assert(piece.contains(piece[i]));
            }
        }
        scan_extends_piece(text, shorter);
        assert(piece.contains(piece.last()));
        assert((text + piece).drop_last() =~= text + shorter);
        assert((text + piece).last() == piece.last());
        assert((scan(text).1 + shorter).push(piece.last()) =~= scan(text).1 + piece);
    }
}

/// What holds of the components and the open piece of any text.
proof fn scan_finds_components(text: Seq<u8>)
    ensures
        !scan(text).1.contains(SEPARATOR),
        scan(text).1.len() <= text.len(),
        scan(text).1.len() == text.len() ==> scan(text).0.len() == 0 && scan(text).1 == text,
        forall|i: int|
            0 <= i < scan(text).0.len() ==> is_component_at(
                #[trigger] scan(text).0[i],
                i,
                text.len() > 0 && text[0] == SEPARATOR,
            ),
    decreases text.len(),
{
    if text.len() > 0 {
        let shorter = text.drop_last();
        scan_finds_components(shorter);
        let (components, piece) = scan(shorter);
        if text.last() != SEPARATOR {
            let longer = piece.push(text.last());
            assert forall|i: int| 0 <= i < longer.len() implies longer[i] != SEPARATOR by {
                if i < piece.len() {
                    assert(piece.contains(piece[i]));
                }
            }
            assert(shorter.push(text.last()) =~= text);
        } else if shorter.len() > 0 {
            assert(shorter[0] == text[0]);
        }
    }
}

/// Whatever a text spells is a path.
pub proof fn parsed_is_well_formed(text: Seq<u8>)
    ensures
        parsed(text).well_formed(),
{
    scan_finds_components(text);
}

/// Joining two paths gives a path.
proof fn join_is_well_formed(base: PathView, other: PathView)
    requires
        base.well_formed(),
        other.well_formed(),
    ensures
        base.join(other).well_formed(),
{
    let joined = base.join(other);
    if !other.absolute && !base.is_empty() {
        let n = base.components.len();
        let rest = other.undotted().components;
        let skipped = other.components.len() - rest.len();
        assert forall|i: int| 0 <= i < joined.components.len() implies is_component_at(
            #[trigger] joined.components[i],
            i,
            joined.absolute,
        ) by {
            if i < n {
                assert(joined.components[i] == base.components[i]);
            } else {
                assert(joined.components[i] == other.components[i - n + skipped]);
            }
        }
    }
}

/// At the end of the separated components, all but the last are complete.
proof fn scan_of_separated(start: Seq<u8>, components: Seq<Seq<u8>>)
    requires
        start.len() == 0 || start == seq![SEPARATOR],
        components.len() > 0,
        forall|i: int|
            0 <= i < components.len() ==> is_component_at(
                #[trigger] components[i],
                i,
                start.len() > 0,
            ),
    ensures
        scan(start + separated(components)) == (components.drop_last(), components.last()),
    decreases components.len(),
{
    let last = components.last();
    assert(is_component_at(components[components.len() - 1], components.len() - 1, start.len() > 0));
    assert(!last.contains(SEPARATOR));
    if components.len() == 1 {
        assert(scan(start) == (Seq::<Seq<u8>>::empty(), Seq::<u8>::empty())) by {
            reveal_with_fuel(scan, 2);
            if start.len() > 0 {
                assert(start.drop_last() =~= Seq::<u8>::empty());
            }
        }
        scan_extends_piece(start, last);
        assert(Seq::<u8>::empty() + last =~= last);
        assert(components.drop_last() =~= Seq::<Seq<u8>>::empty());
    } else {
        let shorter = components.drop_last();
        assert forall|i: int| 0 <= i < shorter.len() implies is_component_at(
            #[trigger] shorter[i],
            i,
            start.len() > 0,
        ) by {
            assert(shorter[i] == components[i]);
        }
        scan_of_separated(start, shorter);
        let opened = (start + separated(shorter)).push(SEPARATOR);
        assert(opened.drop_last() =~= start + separated(shorter));
        assert(is_component_at(shorter[shorter.len() - 1], shorter.len() - 1, start.len() > 0));
        assert(shorter.drop_last().push(shorter.last()) =~= shorter);
        assert(scan(opened) == (shorter, Seq::<u8>::empty()));
        scan_extends_piece(opened, last);
        assert(start + separated(components) =~= opened + last);
        assert(Seq::<u8>::empty() + last =~= last);
    }
}

/// Reading back the text of a path gives the path.
pub proof fn parse_reads_back_rendered(path: PathView)
    requires
        path.well_formed(),
    ensures
        parsed(path.rendered()) == path,
{
    let components = path.components;
    let start = if path.absolute {
        seq![SEPARATOR]
    } else {
        Seq::<u8>::empty()
    };
    let text = path.rendered();
    assert(text =~= start + separated(components));
    if components.len() == 0 {
        assert(text =~= start);
        reveal_with_fuel(scan, 2);
        if path.absolute {
            assert(text.drop_last() =~= Seq::<u8>::empty());
        }
        assert(parsed(text).components =~= components);
    } else {
        scan_of_separated(start, components);
        assert(is_component_at(components[components.len() - 1], components.len() - 1, path.absolute));
        assert(components.drop_last().push(components.last()) =~= components);
        if !path.absolute {
            separated_starts_with_component(components);
        }
    }
}

/// The separated components begin with the first of them.
proof fn separated_starts_with_component(components: Seq<Seq<u8>>)
    requires
        components.len() > 0,
        forall|i: int|
            0 <= i < components.len() ==> is_component_at(#[trigger] components[i], i, false),
    ensures
        separated(components).len() > 0,
        separated(components)[0] != SEPARATOR,
    decreases components.len(),
{
    if components.len() == 1 {
        assert(is_component_at(components[0], 0, false));
        assert(components[0].contains(components[0][0]));
    } else {
        let shorter = components.drop_last();
        assert forall|i: int| 0 <= i < shorter.len() implies is_component_at(
            #[trigger] shorter[i],
            i,
            false,
        ) by {
            assert(shorter[i] == components[i]);
        }
        separated_starts_with_component(shorter);
    }
}

/// What a relative path is joined to stays above it, and stripping it off gives the relative path,
/// but for a `.` that it began with.
pub proof fn strip_prefix_undoes_join(base: PathView, relative: PathView)
    requires
        !relative.absolute,
    ensures
        base.join(relative).starts_with(base),
        base.join(relative).strip_prefix(base) == Some(
            if base.is_empty() {
                relative
            } else {
                relative.undotted()
            },
        ),
{
    let joined = base.join(relative);
    let rest = relative.undotted().components;
    if !base.is_empty() {
        assert(joined.components.subrange(0, base.components.len() as int) =~= base.components);
        assert(joined.components.skip(base.components.len() as int) =~= rest);
    }
}

/// The text of a single component spells the relative path of that component.
pub proof fn component_spells_itself(component: Seq<u8>)
    requires
        is_component(component),
    ensures
        parsed(component) == (PathView { absolute: false, components: seq![component] }),
{
    let path = PathView { absolute: false, components: seq![component] };
    assert(path.rendered() == component);
    parse_reads_back_rendered(path);
}

/// A name in ASCII of at least two characters, without a separator, is one component.
pub proof fn ascii_name_is_one_component(name: Seq<char>)
    requires
        vstd::utf8::is_ascii_chars(name),
        name.len() > 1,
        !name.contains('/'),
    ensures
        is_component(vstd::utf8::encode_utf8(name)),
        vstd::utf8::encode_utf8(name).len() == name.len(),
        parsed(vstd::utf8::encode_utf8(name)) == (PathView {
            absolute: false,
            components: seq![vstd::utf8::encode_utf8(name)],
        }),
{
    let bytes = vstd::utf8::encode_utf8(name);
    vstd::utf8::is_ascii_chars_encode_utf8(name);
    assert(!bytes.contains(SEPARATOR)) by {
        assert forall|i: int| 0 <= i < bytes.len() implies bytes[i] != SEPARATOR by {
            assert(name.contains(name[i]));
            assert(name[i] as u8 == bytes[i]);
        }
    }
    component_spells_itself(bytes);
}

/// The components without a `.` at their start.
spec fn without_dot(components: Seq<Seq<u8>>) -> Seq<Seq<u8>> {
    if components.len() > 0 && components[0] == seq![DOT] {
        components.skip(1)
    } else {
        components
    }
}

/// Behind a separator a text is scanned as it is alone, but for a `.` that it begins with.
proof fn scan_behind_separator(left: Seq<u8>, right: Seq<u8>)
    ensures
        scan(left.push(SEPARATOR) + right) == (
            parsed(left).components + without_dot(scan(right).0),
            scan(right).1,
        ),
    decreases right.len(),
{
    let opened = left.push(SEPARATOR);
    let start = parsed(left).components;
    if right.len() == 0 {
        assert(opened + right =~= opened);
        assert(opened.drop_last() =~= left);
        assert(start + without_dot(scan(right).0) =~= start);
    } else {
        let shorter = right.drop_last();
        scan_behind_separator(left, shorter);
        assert((opened + right).drop_last() =~= opened + shorter);
        assert((opened + right).last() == right.last());
        let (components, piece) = scan(shorter);
        scan_finds_components(shorter);
        if right.last() == SEPARATOR {
            let kept = keep(components, piece, piece.len() == shorter.len());
            let behind = keep(start + without_dot(components), piece, false);
            assert(piece.len() < (opened + shorter).len());
            assert(scan(right).0 == kept);
            assert(scan(opened + right).0 == behind);
            if is_named(piece) {
                assert(kept == components.push(piece));
                assert(without_dot(kept) =~= without_dot(components).push(piece));
                assert(behind =~= start + without_dot(kept));
            } else if piece.len() == shorter.len() && piece == seq![DOT] {
                assert(components.len() == 0);
                assert(without_dot(kept) =~= Seq::empty());
                assert(behind =~= start + without_dot(kept));
            }
        }
    }
}

/// A text without separators spells the relative path of that one component, and the empty text
/// that of none.
pub proof fn unseparated_text_is_one_component(text: Seq<u8>)
    requires
        !text.contains(SEPARATOR),
    ensures
        !parsed(text).absolute,
        text.len() == 0 ==> parsed(text).components == Seq::<Seq<u8>>::empty(),
        text.len() > 0 ==> parsed(text).components == seq![text],
{
    let empty = Seq::<u8>::empty();
    scan_extends_piece(empty, text);
    assert(empty + text =~= text);
    assert(scan(text) == (Seq::<Seq<u8>>::empty(), text));
    if text.len() > 0 {
        assert(text.contains(text[0]));
        assert(parsed(text).components =~= seq![text]);
    }
}

/// A text with a separator spells what stands before it and what stands behind it: the components
/// of the one and then those of the other, where a `.` at the start no longer counts. It is
/// absolute exactly if it begins with a separator.
pub proof fn separator_divides_text(left: Seq<u8>, right: Seq<u8>)
    ensures
        ({
            let path = parsed(left.push(SEPARATOR) + right);
            let rest = parsed(right).components;
            &&& path.absolute == (left.len() == 0 || left[0] == SEPARATOR)
            &&& path.components == parsed(left).components + if rest.len() > 0 && rest[0] == seq![
                DOT,
            ] {
                rest.skip(1)
            } else {
                rest
            }
        }),
{
    let text = left.push(SEPARATOR) + right;
    let (components, piece) = scan(right);
    let rest = parsed(right).components;
    scan_behind_separator(left, right);
    scan_finds_components(right);
    assert(piece.len() < text.len());
    if is_named(piece) {
        assert(without_dot(rest) =~= without_dot(components).push(piece));
    } else if piece.len() == right.len() && piece == seq![DOT] {
        assert(without_dot(rest) =~= Seq::empty());
        assert(without_dot(components) =~= Seq::empty());
    }
    assert(parsed(text).components =~= parsed(left).components + without_dot(rest));
}

/// Without components the text of a path is empty or the separator of the root, and each further
/// component stands behind one separator, but for the first of a relative path and the first
/// behind the root.
pub proof fn rendered_text_grows_by_components(path: PathView, component: Seq<u8>)
    ensures
        path.components.len() == 0 && path.absolute ==> path.rendered() == seq![SEPARATOR],
        path.components.len() == 0 && !path.absolute ==> path.rendered() == Seq::<u8>::empty(),
        ({
            let longer = PathView {
                absolute: path.absolute,
                components: path.components.push(component),
            };
            longer.rendered() == if path.components.len() == 0 {
                path.rendered() + component
            } else {
                path.rendered().push(SEPARATOR) + component
            }
        }),
{
    let longer = PathView { absolute: path.absolute, components: path.components.push(component) };
    assert(longer.components.drop_last() =~= path.components);
    if path.components.len() == 0 {
        if path.absolute {
            assert(path.rendered() =~= seq![SEPARATOR]);
        } else {
            assert(path.rendered() =~= Seq::<u8>::empty());
        }
        assert(longer.rendered() =~= path.rendered() + component);
    } else {
        assert(longer.rendered() =~= path.rendered().push(SEPARATOR) + component);
    }
}

/// A relative path that is joined to another one follows it component by component, without the
/// `.` at its start; an absolute path stands for itself, and so does what is joined to nothing.
pub proof fn join_follows_components(base: PathView, other: PathView, index: int)
    requires
        0 <= index,
    ensures
        ({
            let joined = base.join(other);
            let n = base.components.len();
            let dotted = other.components.len() > 0 && other.components[0] == seq![DOT];
            let skipped: int = if dotted {
                1
            } else {
                0
            };
            if other.absolute || !base.absolute && n == 0 {
                joined == other
            } else {
                &&& joined.absolute == base.absolute
                &&& joined.components.len() == n + other.components.len() - skipped
                &&& index < n ==> joined.components[index] == base.components[index]
                &&& n <= index < joined.components.len() ==> joined.components[index]
                    == other.components[index - n + skipped]
            }
        }),
{
}

/// A path is above another one exactly if both start at the same place and every component of the
/// one is a component of the other, at the same place; the empty path is above all.
pub proof fn prefixes_are_made_of_components(path: PathView, base: PathView)
    ensures
        path.starts_with(base) <==> (!base.absolute && base.components.len() == 0) || (base.absolute
            == path.absolute && base.components.len() <= path.components.len() && forall|i: int|
            0 <= i < base.components.len() ==> path.components[i] == #[trigger] base.components[i]),
        path.strip_prefix(base) is Some <==> path.starts_with(base),
        path.strip_prefix(base) matches Some(rest) ==> {
            let n = base.components.len();
            &&& rest.absolute == (path.absolute && !base.absolute)
            &&& rest.components.len() == path.components.len() - n
            &&& forall|i: int|
                0 <= i < rest.components.len() ==> #[trigger] rest.components[i]
                    == path.components[i + n]
        },
{
    let n = base.components.len() as int;
    if base.components.len() <= path.components.len() {
        let front = path.components.subrange(0, n);
        assert(front =~= base.components <==> forall|i: int|
            0 <= i < n ==> path.components[i] == #[trigger] base.components[i]);
    }
}

/// The parent of a path has all of its components but the last, and only a path without components
/// has none.
pub proof fn parent_lacks_the_last_component(path: PathView)
    ensures
        path.parent() is None <==> path.components.len() == 0,
        path.parent() matches Some(parent) ==> parent.absolute == path.absolute
            && parent.components.push(path.components.last()) == path.components,
{
    if path.components.len() > 0 {
        assert(path.components.drop_last().push(path.components.last()) =~= path.components);
    }
}

} // verus!
