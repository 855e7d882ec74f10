//! Interned pieces of source text.
//!
//! Every identifier, string literal and comment of a module is entered into
//! the [`SpanInterner`], which hands back a [`SpanRef`]. Two refs share a
//! `group` exactly when their texts are the same bytes, whichever module
//! they came from; `distinct` tells the occurrences apart.

use vstd::prelude::*;

verus! {

/// A half-open byte range of a source text.
#[derive(Clone, Copy, Debug, PartialEq, Eq, Structural, Hash)]
pub struct Span {
    pub start: usize,
    pub end: usize,
}

/// A handle for one interned occurrence of a piece of text.
#[derive(Clone, Copy, Debug, PartialEq, Eq, Structural, Hash)]
pub struct SpanRef {
    group: usize,
    distinct: usize,
}

impl SpanRef {
    /// The number shared by all the refs whose text is the same.
    pub closed spec fn spec_group(self) -> usize {
        self.group
    }

    /// The number of this occurrence.
    pub closed spec fn spec_distinct(self) -> usize {
        self.distinct
    }

    #[verifier::when_used_as_spec(spec_group)]
    pub fn group(self) -> (g: usize)
        ensures
            g == self.spec_group(),
    {
        self.group
    }

    #[verifier::when_used_as_spec(spec_distinct)]
    pub fn distinct(self) -> (d: usize)
        ensures
            d == self.spec_distinct(),
    {
        self.distinct
    }
}

/// Whether the two byte strings are the same.
pub fn bytes_eq(a: &[u8], b: &[u8]) -> (same: bool)
    ensures
        same == (a@ == b@),
{
    if a.len() != b.len() {
        return false;
    }
    let mut i: usize = 0;
    while i < a.len()
        invariant
            a@.len() == b@.len(),
            i <= a@.len(),
            forall|k: int| 0 <= k < i ==> a@[k] == b@[k],
        decreases a@.len() - i,
    {
        if a[i] != b[i] {
            return false;
        }
        i += 1;
    }
    assert(a@ =~= b@);
    true
}

/// The interner: the distinct texts seen so far, and for every occurrence
/// its span and the text it stands for.
pub struct SpanInterner {
    texts: Vec<Vec<u8>>,
    occurrences: Vec<(Span, usize)>,
}

impl SpanInterner {
    /// The distinct texts, by group.
    pub closed spec fn texts(&self) -> Seq<Seq<u8>> {
        Seq::new(self.texts@.len(), |g: int| self.texts@[g]@)
    }

    /// For each occurrence, its span and its group.
    pub closed spec fn occurrences(&self) -> Seq<(Span, usize)> {
        self.occurrences@
    }

    /// No text is held twice, and every occurrence names a text that is held.
    pub open spec fn wf(&self) -> bool {
        &&& self.texts().len() <= usize::MAX
        &&& forall|g: int, h: int|
            0 <= g < h < self.texts().len() ==> self.texts()[g] != self.texts()[h]
        &&& forall|i: int|
            0 <= i < self.occurrences().len() ==> (#[trigger] self.occurrences()[i]).1
                < self.texts().len()
    }

    /// Whether `sref` was handed out by this interner.
    pub open spec fn knows(&self, sref: SpanRef) -> bool {
        &&& sref.spec_distinct() < self.occurrences().len()
        &&& self.occurrences()[sref.spec_distinct() as int].1 == sref.spec_group()
    }

    /// The text that `sref` stands for.
    pub open spec fn text_of(&self, sref: SpanRef) -> Seq<u8> {
        self.texts()[sref.spec_group() as int]
    }

    pub fn new() -> (interner: Self)
        ensures
            interner.wf(),
            interner.texts().len() == 0,
            interner.occurrences().len() == 0,
    {
        SpanInterner { texts: Vec::new(), occurrences: Vec::new() }
    }

    fn find(&self, text: &[u8]) -> (found: Option<usize>)
        ensures
            match found {
                Some(g) => g < self.texts().len() && self.texts()[g as int] == text@,
                None => forall|g: int| 0 <= g < self.texts().len() ==> self.texts()[g] != text@,
            },
    {
        let mut g: usize = 0;
        while g < self.texts.len()
            invariant
                g <= self.texts@.len(),
                forall|k: int| 0 <= k < g ==> self.texts()[k] != text@,
            decreases self.texts@.len() - g,
        {
            if bytes_eq(self.texts[g].as_slice(), text) {
                return Some(g);
            }
            g += 1;
        }
        None
    }

    /// Enters one more occurrence of `text`, found at `span`.
    ///
    /// The ref's group is that of the earlier occurrences of the same text,
    /// if there are any, and a new one otherwise. Earlier refs keep their
    /// text.
    pub fn intern(&mut self, text: &[u8], span: Span) -> (sref: SpanRef)
        requires
            old(self).wf(),
        ensures
            final(self).wf(),
            final(self).knows(sref),
            final(self).text_of(sref) == text@,
            sref.spec_distinct() == old(self).occurrences().len(),
            final(self).occurrences() == old(self).occurrences().push((span, sref.spec_group())),
            old(self).texts().is_prefix_of(final(self).texts()),
            final(self).group_of(text@) == Some(sref.spec_group()),
            old(self).texts().contains(text@) ==> final(self).texts() == old(self).texts(),
            !old(self).texts().contains(text@) ==> final(self).texts() == old(self).texts().push(
                text@,
            ),
            forall|r: SpanRef|
                old(self).knows(r) ==> final(self).knows(r) && final(self).text_of(r) == old(
                    self,
                ).text_of(r),
    {
        let found = self.find(text);
        let group = match found {
            Some(g) => g,
            None => {
                let g = self.texts.len();
                let mut owned: Vec<u8> = Vec::new();
                let mut i: usize = 0;
                while i < text.len()
                    invariant
                        i <= text@.len(),
                        owned@ == text@.subrange(0, i as int),
                    decreases text@.len() - i,
                {
                    owned.push(text[i]);
                    i += 1;
                    assert(owned@ =~= text@.subrange(0, i as int));
                }
                assert(owned@ =~= text@);
                self.texts.push(owned);
                assert(self.texts() =~= old(self).texts().push(text@));
                assert(!old(self).texts().contains(text@)) by {
                    if old(self).texts().contains(text@) {
                        let k = choose|k: int|
                            0 <= k < old(self).texts().len() && old(self).texts()[k] == text@;
                        assert(old(self).texts()[k] != text@);
                    }
                }
                g
            },
        };
        if found.is_some() {
            assert(self.texts() =~= old(self).texts());
            assert(old(self).texts().contains(text@));
        }
        let distinct = self.occurrences.len();
        self.occurrences.push((span, group));
        let held = self.texts.len();
        assert(self.texts().len() == held);
        proof {
            assert(self.texts()[group as int] == text@);
            assert(self.texts().contains(text@));
            let k = self.texts().index_of(text@);
            assert(0 <= k < self.texts().len() && self.texts()[k] == text@);
            if k < group {
                if group < old(self).texts().len() {
                    assert(old(self).texts()[k] != old(self).texts()[group as int]);
                } else {
                    assert(old(self).texts().contains(old(self).texts()[k]));
                }
            }
            if group < k {
                if k < old(self).texts().len() {
                    assert(old(self).texts()[group as int] != old(self).texts()[k]);
                } else {
                    assert(old(self).texts().contains(old(self).texts()[group as int]));
                }
            }
        }
        proof {
            assert forall|i: int| 0 <= i < self.occurrences().len() implies (
            #[trigger] self.occurrences()[i]).1 < self.texts().len() by {
                if i < old(self).occurrences().len() {
                    assert(self.occurrences()[i] == old(self).occurrences()[i]);
                }
            }
            assert forall|g: int, h: int| 0 <= g < h < self.texts().len() implies self.texts()[g]
                != self.texts()[h] by {
                if h < old(self).texts().len() {
                    assert(old(self).texts()[g] != old(self).texts()[h]);
                }
            }
            assert forall|r: SpanRef| old(self).knows(r) implies self.knows(r) && self.text_of(r)
                == old(self).text_of(r) by {
                assert(old(self).occurrences()[r.spec_distinct() as int].1 < old(
                    self,
                ).texts().len());
            }
        }
        SpanRef { group, distinct }
    }

    /// Enters a name that stands nowhere in a source, such as the name of an
    /// operator method.
    pub fn str_to_spanref(&mut self, name: &[u8]) -> (sref: SpanRef)
        requires
            old(self).wf(),
        ensures
            final(self).wf(),
            final(self).knows(sref),
            final(self).text_of(sref) == name@,
            old(self).texts().is_prefix_of(final(self).texts()),
            final(self).group_of(name@) == Some(sref.spec_group()),
            forall|r: SpanRef|
                old(self).knows(r) ==> final(self).knows(r) && final(self).text_of(r) == old(
                    self,
                ).text_of(r),
    {
        self.intern(name, Span { start: 0, end: 0 })
    }

    /// The text behind a ref, or `None` for a ref of another interner.
    pub fn resolve_ref(&self, sref: SpanRef) -> (text: Option<&[u8]>)
        requires
            self.wf(),
        ensures
            self.knows(sref) ==> text.is_some() && text.unwrap()@ == self.text_of(sref),
            !self.knows(sref) ==> text.is_none(),
    {
        if sref.distinct < self.occurrences.len() && self.occurrences[sref.distinct].1
            == sref.group {
            assert(self.occurrences()[sref.distinct as int].1 < self.texts().len());
            Some(self.texts[sref.group].as_slice())
        } else {
            None
        }
    }

    /// The text that the group stands for.
    pub fn group_text(&self, group: usize) -> (text: Option<&[u8]>)
        ensures
            group < self.texts().len() ==> text.is_some() && text.unwrap()@ == self.texts()[group as int],
            group >= self.texts().len() ==> text.is_none(),
    {
        if group < self.texts.len() {
            Some(self.texts[group].as_slice())
        } else {
            None
        }
    }

    /// Where the name stands in the source: the span that is held for the
    /// ref, or `otherwise` for a ref that the interner does not know.
    pub open spec fn place_of(&self, name: SpanRef, otherwise: Span) -> Span {
        if self.knows(name) {
            self.occurrences()[name.spec_distinct() as int].0
        } else {
            otherwise
        }
    }

    /// Where the name stands in the source, or `otherwise` where that is
    /// not known.
    pub fn place(&self, name: SpanRef, otherwise: Span) -> (span: Span)
        ensures
            span == self.place_of(name, otherwise),
    {
        match self.get(name) {
            Some(span) => span,
            None => otherwise,
        }
    }

    /// The span at which the occurrence was found.
    pub fn get(&self, sref: SpanRef) -> (span: Option<Span>)
        ensures
            self.knows(sref) ==> span == Some(self.occurrences()[sref.spec_distinct() as int].0),
            !self.knows(sref) ==> span.is_none(),
    {
        if sref.distinct < self.occurrences.len() && self.occurrences[sref.distinct].1
            == sref.group {
            Some(self.occurrences[sref.distinct].0)
        } else {
            None
        }
    }

    /// The group under which the text `name` is held, if it was ever
    /// entered.
    pub open spec fn group_of(&self, name: Seq<u8>) -> Option<usize> {
        if self.texts().contains(name) {
            Some(self.texts().index_of(name) as usize)
        } else {
            None
        }
    }

    /// The group under which `name` is held, if it was ever entered.
    pub fn find_group(&self, name: &[u8]) -> (group: Option<usize>)
        requires
            self.wf(),
        ensures
            group == self.group_of(name@),
            match group {
                Some(g) => g < self.texts().len() && self.texts()[g as int] == name@,
                None => !self.texts().contains(name@),
            },
    {
        let found = self.find(name);
        proof {
            match found {
                Some(g) => {
                    assert(self.texts().contains(name@));
                    let k = self.texts().index_of(name@);
                    assert(0 <= k < self.texts().len() && self.texts()[k] == name@);
                    if k < g {
                        assert(self.texts()[k] != self.texts()[g as int]);
                    }
                    if g < k {
                        assert(self.texts()[g as int] != self.texts()[k]);
                    }
                },
                None => {
                    if self.texts().contains(name@) {
                        let k = choose|k: int|
                            0 <= k < self.texts().len() && self.texts()[k] == name@;
                        assert(self.texts()[k] != name@);
                    }
                },
            }
        }
        found
    }
}

/// The group of a text is the place at which the text is held.
pub proof fn lemma_group_text(interner: SpanInterner, name: Seq<u8>)
    requires
        interner.wf(),
        interner.group_of(name).is_some(),
    ensures
        interner.group_of(name).unwrap() < interner.texts().len(),
        interner.texts()[interner.group_of(name).unwrap() as int] == name,
{
    assert(interner.texts().contains(name));
    let k = interner.texts().index_of(name);
    assert(0 <= k < interner.texts().len() && interner.texts()[k] == name);
}

/// A text that is held keeps its group when more texts are entered.
pub proof fn lemma_group_stable(before: SpanInterner, after: SpanInterner, name: Seq<u8>)
    requires
        before.wf(),
        after.wf(),
        before.texts().is_prefix_of(after.texts()),
        before.texts().contains(name),
    ensures
        after.group_of(name) == before.group_of(name),
{
    let g = before.texts().index_of(name);
    assert(0 <= g < before.texts().len() && before.texts()[g] == name);
    assert(after.texts()[g] == name);
    assert(after.texts().contains(name));
    let h = after.texts().index_of(name);
    assert(0 <= h < after.texts().len() && after.texts()[h] == name);
    if g < h {
        assert(after.texts()[g] != after.texts()[h]);
    }
    if h < g {
        assert(after.texts()[h] != after.texts()[g]);
    }
}

/// Two refs of one interner have the same group exactly when they stand for
/// the same text.
pub proof fn lemma_same_group_iff_same_text(interner: SpanInterner, a: SpanRef, b: SpanRef)
    requires
        interner.wf(),
        interner.knows(a),
        interner.knows(b),
    ensures
        a.spec_group() == b.spec_group() <==> interner.text_of(a) == interner.text_of(b),
{
    let o = interner.occurrences();
    assert(o[a.spec_distinct() as int].1 < interner.texts().len());
    assert(o[b.spec_distinct() as int].1 < interner.texts().len());
}

} // verus!
