//! What is known of the whole compilation: the modules that were read and
//! how an import finds its file.

pub mod global;
pub mod imports;
pub mod walk;

use vstd::prelude::*;

verus! {

/// The key of a module: the canonical path of its source file.
#[derive(Debug, Clone, Hash, PartialEq, Eq)]
pub struct ModuleRef(pub String);

impl View for ModuleRef {
    type V = Seq<char>;

    open spec fn view(&self) -> Seq<char> {
        self.0@
    }
}

impl ModuleRef {
    /// Whether both keys name the same path.
    pub fn same_as(&self, other: &ModuleRef) -> (same: bool)
        ensures
            same == (self@ == other@),
    {
        self.0 == other.0
    }

    /// A copy of the key.
    pub fn duplicate(&self) -> (copy: ModuleRef)
        ensures
            copy@ == self@,
    {
        ModuleRef(self.0.clone())
    }
}

/// What kind of thing a directory entry is.
#[derive(Clone, Copy, Debug, PartialEq, Eq, Structural)]
pub enum EntryKind {
    File,
    Dir,
    Other,
}

/// An entry of a directory: its file name and its kind.
#[derive(Clone, Debug, PartialEq, Eq)]
pub struct DirEntry {
    pub file_name: Vec<u8>,
    pub kind: EntryKind,
}

/// The place of the last dot of `name` before the place `n`, or -1.
pub open spec fn last_dot(name: Seq<u8>, n: int) -> int
    decreases n,
{
    if n <= 0 {
        -1
    } else if name[n - 1] == 46u8 {
        n - 1
    } else {
        last_dot(name, n - 1)
    }
}

/// The stem of a file name: what stands before the last dot. A name
/// without a dot, or whose only dot is its first byte, is its own stem.
pub open spec fn file_stem(name: Seq<u8>) -> Seq<u8> {
    let dot = last_dot(name, name.len() as int);
    if dot <= 0 {
        name
    } else {
        name.subrange(0, dot)
    }
}

/// The extension of a file name: what stands after the last dot, if the
/// name has a stem before it.
pub open spec fn file_extension(name: Seq<u8>) -> Option<Seq<u8>> {
    let dot = last_dot(name, name.len() as int);
    if dot <= 0 {
        None
    } else {
        Some(name.subrange(dot + 1, name.len() as int))
    }
}

/// Whether the entry can hold the module `expected`: a file must be called
/// by that name with the extension `py` and nothing more, a directory must
/// have that name as its stem.
pub open spec fn entry_matches(entry: DirEntry, expected: Seq<u8>) -> bool {
    let name = entry.file_name@;
    match entry.kind {
        EntryKind::File => {
            &&& file_extension(name) == Some(seq![112u8, 121u8])
            &&& !file_stem(name).contains(46u8)
            &&& file_stem(name) == expected
        },
        EntryKind::Dir => file_stem(name) == expected,
        EntryKind::Other => false,
    }
}

/// The first of the entries, from the place `from` on, that can hold the
/// module `expected`.
pub open spec fn first_match(entries: Seq<DirEntry>, expected: Seq<u8>, from: int) -> Option<int>
    decreases entries.len() - from,
{
    if from < 0 || from >= entries.len() {
        None
    } else if entry_matches(entries[from], expected) {
        Some(from)
    } else {
        first_match(entries, expected, from + 1)
    }
}

fn find_last_dot(name: &[u8]) -> (dot: Option<usize>)
    ensures
        match dot {
            Some(d) => d < name@.len() && last_dot(name@, name@.len() as int) == d,
            None => last_dot(name@, name@.len() as int) == -1,
        },
{
    let mut n: usize = name.len();
    while n > 0
        invariant
            n <= name@.len(),
            last_dot(name@, name@.len() as int) == last_dot(name@, n as int),
        decreases n,
    {
        if name[n - 1] == 46u8 {
            return Some(n - 1);
        }
        n -= 1;
    }
    None
}

fn slice_eq(name: &[u8], from: usize, to: usize, other: &[u8]) -> (same: bool)
    requires
        from <= to <= name@.len(),
    ensures
        same == (name@.subrange(from as int, to as int) == other@),
{
    if to - from != other.len() {
        return false;
    }
    let mut i: usize = 0;
    while i < other.len()
        invariant
            from <= to <= name@.len(),
            to - from == other@.len(),
            i <= other@.len(),
            forall|k: int| 0 <= k < i ==> name@[from + k] == other@[k],
        decreases other@.len() - i,
    {
        if name[from + i] != other[i] {
            assert(name@.subrange(from as int, to as int)[i as int] != other@[i as int]);
            return false;
        }
        i += 1;
    }
    assert(name@.subrange(from as int, to as int) =~= other@);
    true
}

fn has_dot(name: &[u8], to: usize) -> (found: bool)
    requires
        to <= name@.len(),
    ensures
        found == name@.subrange(0, to as int).contains(46u8),
{
    let mut i: usize = 0;
    while i < to
        invariant
            i <= to <= name@.len(),
            forall|k: int| 0 <= k < i ==> name@[k] != 46u8,
        decreases to - i,
    {
        if name[i] == 46u8 {
            assert(name@.subrange(0, to as int)[i as int] == 46u8);
            return true;
        }
        i += 1;
    }
    assert(!name@.subrange(0, to as int).contains(46u8)) by {
        if name@.subrange(0, to as int).contains(46u8) {
            let k = choose|k: int|
                0 <= k < name@.subrange(0, to as int).len() && name@.subrange(0, to as int)[k]
                    == 46u8;
            assert(name@[k] != 46u8);
        }
    }
    false
}

/// Whether the entry can hold the module `expected`.
pub fn matches_module(entry: &DirEntry, expected: &[u8]) -> (fits: bool)
    ensures
        fits == entry_matches(*entry, expected@),
{
    let name = entry.file_name.as_slice();
    let length = name.len();
    let last = find_last_dot(name);
    let dot = match last {
        Some(d) => if d == 0 {
            None
        } else {
            Some(d)
        },
        None => None,
    };
    assert(dot.is_some() ==> 0 < dot.unwrap() < name@.len() && last_dot(
        name@,
        name@.len() as int,
    ) == dot.unwrap());
    assert(dot.is_none() ==> last_dot(name@, name@.len() as int) <= 0);
    match entry.kind {
        EntryKind::Other => false,
        EntryKind::Dir => match dot {
            Some(d) => slice_eq(name, 0, d, expected),
            None => {
                assert(name@.subrange(0, name@.len() as int) =~= name@);
                slice_eq(name, 0, name.len(), expected)
            },
        },
        EntryKind::File => match dot {
            Some(d) => {
                let py: [u8; 2] = [112u8, 121u8];
                assert(py@ =~= seq![112u8, 121u8]);
                slice_eq(name, d + 1, name.len(), py.as_slice()) && !has_dot(name, d) && slice_eq(
                    name,
                    0,
                    d,
                    expected,
                )
            },
            None => false,
        },
    }
}

/// The place of the first entry that can hold the module `expected`.
pub fn search(entries: &Vec<DirEntry>, expected: &[u8]) -> (found: Option<usize>)
    ensures
        match found {
            Some(i) => first_match(entries@, expected@, 0) == Some(i as int) && i < entries@.len(),
            None => first_match(entries@, expected@, 0).is_none(),
        },
{
    let mut i: usize = 0;
    while i < entries.len()
        invariant
            i <= entries@.len(),
            first_match(entries@, expected@, 0) == first_match(entries@, expected@, i as int),
        decreases entries@.len() - i,
    {
        if matches_module(&entries[i], expected) {
            return Some(i);
        }
        i += 1;
    }
    None
}

/// What the search for the file of a module asks of its caller next.
#[derive(Clone, Debug, PartialEq, Eq)]
pub enum SearchStep {
    /// List the directory at this path and hand the entries back.
    ReadDir(Vec<u8>),
    /// The module is at this path.
    Found(Vec<u8>),
    /// No root holds the module.
    NotFound,
    /// The module is the compiler's own, `__monty`: it has no file, and
    /// nothing is to be read for it.
    OwnModule,
}

/// The search for the file of a module with a dotted name: below each root
/// in turn, every part of the name must be found in the directory that the
/// part before it led to.
pub struct ImportSearch {
    roots: Vec<Vec<u8>>,
    qualname: Vec<Vec<u8>>,
    root: usize,
    part: usize,
    path: Vec<u8>,
}

fn copy_bytes(bytes: &Vec<u8>) -> (copy: Vec<u8>)
    ensures
        copy@ == bytes@,
{
    let mut copy: Vec<u8> = Vec::new();
    let mut i: usize = 0;
    while i < bytes.len()
        invariant
            i <= bytes@.len(),
            copy@ == bytes@.subrange(0, i as int),
        decreases bytes@.len() - i,
    {
        copy.push(bytes[i]);
        i += 1;
        assert(copy@ =~= bytes@.subrange(0, i as int));
    }
    assert(copy@ =~= bytes@);
    copy
}

/// The path of the entry `name` in the directory `dir`.
pub open spec fn joined(dir: Seq<u8>, name: Seq<u8>) -> Seq<u8> {
    dir + seq![47u8] + name
}

/// The name of the compiler's own module, `__monty`, which has no file.
pub open spec fn own_module() -> Seq<u8> {
    seq![95u8, 95u8, 109u8, 111u8, 110u8, 116u8, 121u8]
}

impl ImportSearch {
    /// The roots that are searched, in order.
    pub closed spec fn roots(&self) -> Seq<Seq<u8>> {
        Seq::new(self.roots@.len(), |i: int| self.roots@[i]@)
    }

    /// The parts of the dotted name.
    pub closed spec fn qualname(&self) -> Seq<Seq<u8>> {
        Seq::new(self.qualname@.len(), |i: int| self.qualname@[i]@)
    }

    /// The root that is being searched.
    pub closed spec fn root(&self) -> int {
        self.root as int
    }

    /// The part of the name that is looked for next.
    pub closed spec fn part(&self) -> int {
        self.part as int
    }

    /// The directory that the parts found so far have led to.
    pub closed spec fn path(&self) -> Seq<u8> {
        self.path@
    }

    /// The root and the part are in range.
    pub closed spec fn wf(&self) -> bool {
        self.root <= self.roots@.len() && self.part <= self.qualname@.len()
    }

    /// Whether the search still looks for a part of the name below some
    /// root: only then can it take the entries of a directory.
    pub fn is_searching(&self) -> (searching: bool)
        ensures
            searching == (self.root() < self.roots().len() && self.part() < self.qualname().len()),
    {
        self.root < self.roots.len() && self.part < self.qualname.len()
    }

    /// Starts the search for `qualname` below `roots` and says what to do
    /// first. The name `__monty` stands for the compiler's own module,
    /// whatever the roots are: no directory is read for it and no file is
    /// found. Without roots nothing else is found. An
    /// empty name is found at the first root. For every other name the
    /// first root is to be read.
    pub fn start(roots: Vec<Vec<u8>>, qualname: Vec<Vec<u8>>) -> (started: (ImportSearch, SearchStep))
        ensures
            started.0.wf(),
            started.0.roots() == Seq::new(roots@.len(), |i: int| roots@[i]@),
            started.0.qualname() == Seq::new(qualname@.len(), |i: int| qualname@[i]@),
            started.0.root() == 0,
            started.0.part() == 0,
            if qualname@.len() == 1 && qualname@[0]@ == own_module() {
                started.1 == SearchStep::OwnModule
            } else if roots@.len() == 0 {
                started.1 == SearchStep::NotFound
            } else if qualname@.len() == 0 {
                started.1 matches SearchStep::Found(p) && p@ == roots@[0]@
            } else {
                started.1 matches SearchStep::ReadDir(p) && p@ == roots@[0]@ && started.0.path()
                    == roots@[0]@
            },
    {
        let monty: [u8; 7] = [95u8, 95u8, 109u8, 111u8, 110u8, 116u8, 121u8];
        assert(monty@ =~= seq![95u8, 95u8, 109u8, 111u8, 110u8, 116u8, 121u8]);
        if qualname.len() == 1 && crate::span::bytes_eq(qualname[0].as_slice(), monty.as_slice()) {
            let search = ImportSearch { roots, qualname, root: 0, part: 0, path: Vec::new() };
            return (search, SearchStep::OwnModule);
        }
        if roots.len() == 0 {
            let search = ImportSearch { roots, qualname, root: 0, part: 0, path: Vec::new() };
            return (search, SearchStep::NotFound);
        }
        let path = copy_bytes(&roots[0]);
        let step = if qualname.len() == 0 {
            SearchStep::Found(copy_bytes(&roots[0]))
        } else {
            SearchStep::ReadDir(copy_bytes(&roots[0]))
        };
        (ImportSearch { roots, qualname, root: 0, part: 0, path }, step)
    }

    /// Takes the entries of the directory that was asked for and says what
    /// to do next.
    ///
    /// The first entry that can hold the part of the name leads on: to the
    /// next part, or to the end of the search if it was the last part. If
    /// no entry can, the search starts over below the next root, and fails
    /// when there is none.
    pub fn next(&mut self, entries: &Vec<DirEntry>) -> (step: SearchStep)
        requires
            old(self).wf(),
            old(self).root() < old(self).roots().len(),
            old(self).part() < old(self).qualname().len(),
        ensures
            final(self).wf(),
            final(self).roots() == old(self).roots(),
            final(self).qualname() == old(self).qualname(),
            match first_match(entries@, old(self).qualname()[old(self).part()], 0) {
                Some(i) => {
                    let path = joined(old(self).path(), entries@[i].file_name@);
                    &&& final(self).root() == old(self).root()
                    &&& final(self).part() == old(self).part() + 1
                    &&& final(self).path() == path
                    &&& if old(self).part() + 1 == old(self).qualname().len() {
                        step matches SearchStep::Found(p) && p@ == path
                    } else {
                        step matches SearchStep::ReadDir(p) && p@ == path
                    }
                },
                None => {
                    &&& final(self).root() == old(self).root() + 1
                    &&& final(self).part() == 0
                    &&& if old(self).root() + 1 < old(self).roots().len() {
                        &&& step matches SearchStep::ReadDir(p) && p@ == old(self).roots()[old(
                            self,
                        ).root() + 1]
                        &&& final(self).path() == old(self).roots()[old(self).root() + 1]
                    } else {
                        step == SearchStep::NotFound
                    }
                },
            },
    {
        let parts = self.qualname.len();
        let count = self.roots.len();
        assert(self.root < count);
        assert(self.part < parts);
        assert(self.qualname()[self.part as int] == self.qualname@[self.part as int]@);
        match search(entries, self.qualname[self.part].as_slice()) {
            Some(i) => {
                self.path.push(47u8);
                let name = &entries[i].file_name;
                let mut k: usize = 0;
                while k < name.len()
                    invariant
                        k <= name@.len(),
                        self.part < parts,
                        self.root == old(self).root,
                        self.part == old(self).part,
                        self.roots == old(self).roots,
                        self.qualname == old(self).qualname,
                        self.path@ == old(self).path@ + seq![47u8] + name@.subrange(0, k as int),
                    decreases name@.len() - k,
                {
                    self.path.push(name[k]);
                    k += 1;
                    assert(self.path@ =~= old(self).path@ + seq![47u8] + name@.subrange(
                        0,
                        k as int,
                    ));
                }
                assert(name@.subrange(0, name@.len() as int) =~= name@);
                self.part = self.part + 1;
                if self.part == self.qualname.len() {
                    SearchStep::Found(copy_bytes(&self.path))
                } else {
                    SearchStep::ReadDir(copy_bytes(&self.path))
                }
            },
            None => {
                self.root = self.root + 1;
                self.part = 0;
                if self.root < self.roots.len() {
                    self.path = copy_bytes(&self.roots[self.root]);
                    SearchStep::ReadDir(copy_bytes(&self.path))
                } else {
                    SearchStep::NotFound
                }
            },
        }
    }
}

/// `std::path::Path::components`: the parts of the path, each as a string.
/// How a path falls into parts differs between systems, so nothing is said
/// of the result.
#[verifier::external_body]
fn path_components(path: &str) -> (parts: Vec<String>) {
    std::path::Path::new(path).components().map(|c| c.as_os_str().to_string_lossy().into_owned()).collect()
}

/// `String::push_str`: the text is appended.
#[verifier::external_body]
fn push_str(to: &mut String, text: &str)
    ensures
        final(to)@ == old(to)@ + text@,
{
    to.push_str(text);
}

/// The last two of the parts, joined by a slash; of fewer parts, all.
pub open spec fn shortened(parts: Seq<Seq<char>>) -> Seq<char> {
    if parts.len() == 0 {
        Seq::empty()
    } else if parts.len() == 1 {
        parts[0]
    } else {
        parts[parts.len() - 2] + "/"@ + parts[parts.len() - 1]
    }
}

/// The parts as values.
pub open spec fn part_views(parts: Seq<String>) -> Seq<Seq<char>> {
    Seq::new(parts.len(), |i: int| parts[i]@)
}

/// Joins the last two parts of a path by a slash.
pub fn shorten_components(parts: &Vec<String>) -> (short: String)
    ensures
        short@ == shortened(part_views(parts@)),
{
    let mut short = String::new();
    let n = parts.len();
    if n == 1 {
        push_str(&mut short, parts[0].as_str());
        assert(short@ =~= parts@[0]@);
    } else if n >= 2 {
        push_str(&mut short, parts[n - 2].as_str());
        push_str(&mut short, "/");
        push_str(&mut short, parts[n - 1].as_str());
        assert(short@ =~= parts@[n - 2]@ + "/"@ + parts@[n - 1]@);
    }
    short
}

/// A path cut down to its last two parts, for messages. The system says
/// how a path falls into parts; whatever parts it gives, the result is what
/// [`shorten_components`] makes of them.
pub fn shorten(path: &str) -> (short: String)
    ensures
        exists|parts: Seq<String>| short@ == shortened(part_views(parts)),
{
    let parts = path_components(path);
    let short = shorten_components(&parts);
    assert(short@ == shortened(part_views(parts@)));
    short
}

} // verus!
