//! Constraints and the constraint model: the ordered list of
//! (filter type, search term) pairs that a query is built from.

use vstd::prelude::*;

verus! {

/// The filter categories the server understands, one per searchable
/// metadata field, plus `Any` for a match against every field.
#[derive(Clone, Copy, Debug, PartialEq, Eq, Structural)]
pub enum FilterType {
    Any,
    Title,
    Track,
    Disc,
    Album,
    Artist,
    AlbumArtist,
}

/// The protocol name of a filter type, as it appears in a query.
pub open spec fn spec_type_name(t: FilterType) -> Seq<char> {
    match t {
        FilterType::Any => "any"@,
        FilterType::Title => "title"@,
        FilterType::Track => "track"@,
        FilterType::Disc => "disc"@,
        FilterType::Album => "album"@,
        FilterType::Artist => "artist"@,
        FilterType::AlbumArtist => "albumartist"@,
    }
}

/// The filter type selected by one key, if any: a fixed table, one
/// printable character per category.
pub open spec fn spec_type_of_char(c: char) -> Option<FilterType> {
    match c {
        ' ' => Some(FilterType::Any),
        't' => Some(FilterType::Title),
        'T' => Some(FilterType::Track),
        'd' => Some(FilterType::Disc),
        'b' => Some(FilterType::Album),
        'a' => Some(FilterType::Artist),
        'A' => Some(FilterType::AlbumArtist),
        _ => None,
    }
}

impl FilterType {
    /// The protocol name as an owned string.
    pub fn name(&self) -> (r: String)
        ensures
            r@ == spec_type_name(*self),
    {
        match *self {
            FilterType::Any => String::from_str("any"),
            FilterType::Title => String::from_str("title"),
            FilterType::Track => String::from_str("track"),
            FilterType::Disc => String::from_str("disc"),
            FilterType::Album => String::from_str("album"),
            FilterType::Artist => String::from_str("artist"),
            FilterType::AlbumArtist => String::from_str("albumartist"),
        }
    }
}

/// One filter-type/search-term pair contributed to a query. The type is
/// fixed at creation; the term is edited only while the constraint is the
/// last element of the model.
pub struct Constraint {
    pub filter_type: FilterType,
    pub term: String,
}

impl View for Constraint {
    type V = (FilterType, Seq<char>);

    open spec fn view(&self) -> (FilterType, Seq<char>) {
        (self.filter_type, self.term@)
    }
}

/// The serialized query text for one constraint: `<type> "<term>" `,
/// emitted whether or not the term is empty. A term that itself contains
/// a double-quote character is sent as it is, unescaped: a known
/// fragility of the wire format, kept as behaviour.
pub open spec fn spec_fragment(c: (FilterType, Seq<char>)) -> Seq<char> {
    spec_type_name(c.0) + " \""@ + c.1 + "\" "@
}

/// The display text for one constraint: `<type>: <term>`.
pub open spec fn spec_display(c: (FilterType, Seq<char>)) -> Seq<char> {
    spec_type_name(c.0) + ": "@ + c.1
}

impl Constraint {
    /// A fresh constraint with an empty term, for the filter type that
    /// `metadata_type` selects; `None` when the key selects no type.
    pub fn new(metadata_type: char) -> (r: Option<Constraint>)
        ensures
            match r {
                Some(c) => spec_type_of_char(metadata_type) == Some(c.filter_type)
                    && c.term@ == Seq::<char>::empty(),
                None => spec_type_of_char(metadata_type) is None,
            },
    {
        let t: Option<FilterType> = match metadata_type {
            ' ' => Some(FilterType::Any),
            't' => Some(FilterType::Title),
            'T' => Some(FilterType::Track),
            'd' => Some(FilterType::Disc),
            'b' => Some(FilterType::Album),
            'a' => Some(FilterType::Artist),
            'A' => Some(FilterType::AlbumArtist),
            _ => None,
        };
        match t {
            Some(ft) => Some(Constraint { filter_type: ft, term: String::new() }),
            None => None,
        }
    }

    /// The query fragment for this constraint.
    pub fn to_mpd_string(&self) -> (r: String)
        ensures
            r@ == spec_fragment(self@),
    {
        let mut s = self.filter_type.name();
        s.append(" \"");
        s.append(self.term.as_str());
        s.append("\" ");
        s
    }

    /// The on-screen text for this constraint.
    pub fn to_display_string(&self) -> (r: String)
        ensures
            r@ == spec_display(self@),
    {
        let mut s = self.filter_type.name();
        s.append(": ");
        s.append(self.term.as_str());
        s
    }
}

/// The query text for a whole model: the fragments of its constraints,
/// concatenated in creation order.
pub open spec fn spec_fragments(m: Seq<(FilterType, Seq<char>)>) -> Seq<char>
    decreases m.len(),
{
    if m.len() == 0 {
        Seq::<char>::empty()
    } else {
        spec_fragments(m.drop_last()) + spec_fragment(m.last())
    }
}

/// A model after one character is appended to the term of its last
/// constraint; an empty model is unchanged.
pub open spec fn spec_push_term_char(m: Seq<(FilterType, Seq<char>)>, c: char) -> Seq<
    (FilterType, Seq<char>),
> {
    if m.len() == 0 {
        m
    } else {
        m.update(m.len() - 1, (m.last().0, m.last().1.push(c)))
    }
}

/// A model after one character is removed from the term of its last
/// constraint; unchanged when the model is empty or the term is.
pub open spec fn spec_pop_term_char(m: Seq<(FilterType, Seq<char>)>) -> Seq<
    (FilterType, Seq<char>),
> {
    if m.len() == 0 || m.last().1.len() == 0 {
        m
    } else {
        m.update(m.len() - 1, (m.last().0, m.last().1.drop_last()))
    }
}

/// The ordered list of constraints a query is built from. Constraints
/// are appended in creation order; removal only ever pops the last one,
/// and only the last one's term is edited.
pub struct ConstraintModel {
    items: Vec<Constraint>,
}

impl View for ConstraintModel {
    type V = Seq<(FilterType, Seq<char>)>;

    closed spec fn view(&self) -> Seq<(FilterType, Seq<char>)> {
        self.items@.map_values(|c: Constraint| c@)
    }
}

impl ConstraintModel {
    /// An empty model.
    pub fn new() -> (r: ConstraintModel)
        ensures
            r@ == Seq::<(FilterType, Seq<char>)>::empty(),
    {
        let m = ConstraintModel { items: Vec::new() };
        proof {
            assert(m@ =~= Seq::<(FilterType, Seq<char>)>::empty());
        }
        m
    }

    /// How many constraints the model holds.
    pub fn len(&self) -> (r: usize)
        ensures
            r == self@.len(),
    {
        self.items.len()
    }

    /// Whether the model holds no constraint.
    pub fn is_empty(&self) -> (r: bool)
        ensures
            r == (self@.len() == 0),
    {
        self.items.len() == 0
    }

    /// The constraint at position `i`, in creation order.
    pub fn get(&self, i: usize) -> (r: &Constraint)
        requires
            i < self@.len(),
        ensures
            r@ == self@[i as int],
    {
        &self.items[i]
    }

    /// Appends a constraint at the end.
    pub fn push(&mut self, c: Constraint)
        ensures
            final(self)@ == old(self)@.push(c@),
    {
        let ghost before = self@;
        let ghost cv = c@;
        self.items.push(c);
        proof {
            assert(self@ =~= before.push(cv));
        }
    }

    /// Removes the last constraint if one is present; reports whether
    /// one was removed.
    pub fn pop(&mut self) -> (r: bool)
        ensures
            old(self)@.len() == 0 ==> !r && final(self)@ == old(self)@,
            old(self)@.len() > 0 ==> r && final(self)@ == old(self)@.drop_last(),
    {
        let ghost before = self@;
        match self.items.pop() {
            Some(_) => {
                proof {
                    assert(self@ =~= before.drop_last());
                }
                true
            },
            None => {
                proof {
                    assert(self@ =~= before);
                }
                false
            },
        }
    }

    /// Appends one character to the term of the last constraint; a no-op
    /// on an empty model.
    pub fn push_term_char(&mut self, c: char)
        ensures
            final(self)@ == spec_push_term_char(old(self)@, c),
    {
        let ghost before = self@;
        match self.items.pop() {
            Some(mut last) => {
                last.term.push(c);
                self.items.push(last);
                proof {
                    assert(self@ =~= spec_push_term_char(before, c));
                }
            },
            None => {
                proof {
                    assert(self@ =~= before);
                }
            },
        }
    }

    /// Removes and returns the last character of the last constraint's
    /// term. Returns `None`, leaving the model unchanged, when the model
    /// is empty or the term is.
    pub fn pop_term_char(&mut self) -> (r: Option<char>)
        ensures
            final(self)@ == spec_pop_term_char(old(self)@),
            r is Some <==> old(self)@.len() > 0 && old(self)@.last().1.len() > 0,
            r is Some ==> r == Some(old(self)@.last().1.last()),
    {
        let ghost before = self@;
        match self.items.pop() {
            Some(mut last) => {
                let popped = last.term.pop();
                self.items.push(last);
                proof {
                    assert(self@ =~= spec_pop_term_char(before));
                }
                popped
            },
            None => {
                proof {
                    assert(self@ =~= before);
                }
                None
            },
        }
    }

    /// The query text for the whole model: one fragment per constraint,
    /// in creation order.
    pub fn to_search_fragment(&self) -> (r: String)
        ensures
            r@ == spec_fragments(self@),
    {
        let mut s = String::new();
        let mut i: usize = 0;
        let n = self.items.len();
        while i < n
            invariant
                i <= n,
                n == self@.len(),
                s@ == spec_fragments(self@.take(i as int)),
            decreases n - i,
        {
            let frag = self.items[i].to_mpd_string();
            s.append(frag.as_str());
            proof {
                assert(self@.take(i + 1).drop_last() =~= self@.take(i as int));
                assert(self@.take(i + 1).last() == self@[i as int]);
            }
            i += 1;
        }
        proof {
            assert(self@.take(n as int) =~= self@);
        }
        s
    }
}

/// One fragment per constraint, in creation order: the query text for a
/// model is exactly the concatenation of its constraints' fragments,
/// however the model was reached.
pub proof fn lemma_fragment_per_constraint(m: Seq<(FilterType, Seq<char>)>)
    ensures
        spec_fragments(m) == m.map_values(|c: (FilterType, Seq<char>)| spec_fragment(c)).flatten_alt(),
    decreases m.len(),
{
    let mapped = m.map_values(|c: (FilterType, Seq<char>)| spec_fragment(c));
    if m.len() == 0 {
        assert(mapped =~= Seq::<Seq<char>>::empty());
    } else {
        lemma_fragment_per_constraint(m.drop_last());
        assert(mapped.drop_last() =~= m.drop_last().map_values(
            |c: (FilterType, Seq<char>)| spec_fragment(c),
        ));
    }
}

} // verus!
