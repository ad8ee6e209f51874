use vstd::prelude::*;

verus! {

/// One nucleotide base call. `Other` stands for gaps and misreads.
#[derive(Clone, Copy, PartialEq, Eq, Debug, Structural)]
pub enum Symbol {
    Other,
    Adenine,
    Thymine,
    Cytosine,
    Guanine,
}

/// The published numeric code of each symbol.
pub open spec fn symbol_code(s: Symbol) -> u8 {
    match s {
        Symbol::Adenine => 0,
        Symbol::Thymine => 1,
        Symbol::Cytosine => 2,
        Symbol::Guanine => 3,
        Symbol::Other => 4,
    }
}

impl Symbol {
    /// Numeric code of the symbol: A=0, T=1, C=2, G=3, other=4.
    pub fn code(self) -> (r: u8)
        ensures
            r == symbol_code(self),
    {
        match self {
            Symbol::Adenine => 0,
            Symbol::Thymine => 1,
            Symbol::Cytosine => 2,
            Symbol::Guanine => 3,
            Symbol::Other => 4,
        }
    }
}

impl From<Symbol> for u8 {
    fn from(s: Symbol) -> (r: u8)
        ensures
            r == symbol_code(s),
    {
        s.code()
    }
}

impl vstd::std_specs::convert::FromSpecImpl<Symbol> for u8 {
    open spec fn obeys_from_spec() -> bool {
        true
    }

    open spec fn from_spec(s: Symbol) -> u8 {
        symbol_code(s)
    }
}

impl From<Symbol> for i32 {
    fn from(s: Symbol) -> (r: i32)
        ensures
            r == symbol_code(s) as i32,
    {
        s.code() as i32
    }
}

impl vstd::std_specs::convert::FromSpecImpl<Symbol> for i32 {
    open spec fn obeys_from_spec() -> bool {
        true
    }

    open spec fn from_spec(s: Symbol) -> i32 {
        symbol_code(s) as i32
    }
}

impl From<Symbol> for usize {
    fn from(s: Symbol) -> (r: usize)
        ensures
            r == symbol_code(s) as usize,
    {
        s.code() as usize
    }
}

impl vstd::std_specs::convert::FromSpecImpl<Symbol> for usize {
    open spec fn obeys_from_spec() -> bool {
        true
    }

    open spec fn from_spec(s: Symbol) -> usize {
        symbol_code(s) as usize
    }
}

/// Abstract value of a scaffold: its name and its symbols in file order.
pub struct ScaffoldView {
    pub name: Seq<char>,
    pub sequence: Seq<Symbol>,
}

/// A named, contiguous DNA sequence.
pub struct Scaffold {
    name: String,
    sequence: Vec<Symbol>,
}

impl View for Scaffold {
    type V = ScaffoldView;

    closed spec fn view(&self) -> ScaffoldView {
        ScaffoldView { name: self.name@, sequence: self.sequence@ }
    }
}

impl Scaffold {
    pub fn new(name: String, sequence: Vec<Symbol>) -> (r: Self)
        ensures
            r@ == (ScaffoldView { name: name@, sequence: sequence@ }),
    {
        Scaffold { name, sequence }
    }

    pub fn name(&self) -> (r: &str)
        ensures
            r@ == self@.name,
    {
        self.name.as_str()
    }

    pub fn sequence(&self) -> (r: &[Symbol])
        ensures
            r@ == self@.sequence,
    {
        self.sequence.as_slice()
    }
}

/// Kind of an annotated region of a DNA sequence.
#[derive(Clone, Copy, PartialEq, Eq, Debug, Structural)]
pub enum Feature {
    Exon,
    /// Protein coding sequence.
    CDS,
    StartCodon,
    StopCodon,
}

#[derive(Clone, Copy, PartialEq, Eq, Debug, Structural)]
pub enum Strand {
    Positive,
    Negative,
}

/// Offset of the first base of the first full codon within a feature,
/// relative to the feature's start.
#[derive(Clone, Copy, PartialEq, Eq, Debug, Structural)]
pub enum Phase {
    Zero,
    One,
    Two,
}

/// Abstract value of an annotation.
pub struct AnnotationView {
    pub scaffold: Seq<char>,
    pub source: Seq<char>,
    pub feature: Feature,
    pub score: Option<u32>,
    pub strand: Strand,
    pub phase: Option<Phase>,
    pub start: usize,
    pub end: usize,
    pub attributes: Seq<char>,
}

/// Annotation of a DNA feature. Coordinates are 0-based, `start` inclusive
/// and `end` exclusive, and `start < end` always holds.
#[derive(Debug)]
pub struct Annotation {
    scaffold: String,
    source: String,
    feature: Feature,
    score: Option<u32>,
    strand: Strand,
    phase: Option<Phase>,
    start: usize,
    end: usize,
    attributes: String,
}

impl View for Annotation {
    type V = AnnotationView;

    closed spec fn view(&self) -> AnnotationView {
        AnnotationView {
            scaffold: self.scaffold@,
            source: self.source@,
            feature: self.feature,
            score: self.score,
            strand: self.strand,
            phase: self.phase,
            start: self.start,
            end: self.end,
            attributes: self.attributes@,
        }
    }
}

impl Annotation {
    #[verifier::type_invariant]
    spec fn coordinates_ordered(&self) -> bool {
        self.start < self.end
    }

    #[allow(clippy::too_many_arguments)]
    pub fn new(
        scaffold: String,
        source: String,
        feature: Feature,
        score: Option<u32>,
        strand: Strand,
        phase: Option<Phase>,
        start: usize,
        end: usize,
        attributes: String,
    ) -> (r: Self)
        requires
            start < end,
        ensures
            r@ == (AnnotationView {
                scaffold: scaffold@,
                source: source@,
                feature,
                score,
                strand,
                phase,
                start,
                end,
                attributes: attributes@,
            }),
    {
        Annotation { scaffold, source, feature, score, strand, phase, start, end, attributes }
    }

    /// Identifier of the scaffold on which this feature appears.
    pub fn scaffold(&self) -> (r: &str)
        ensures
            r@ == self@.scaffold,
    {
        self.scaffold.as_str()
    }

    /// Source of the feature (e.g. an organization or a program name).
    pub fn source(&self) -> (r: &str)
        ensures
            r@ == self@.source,
    {
        self.source.as_str()
    }

    /// Type of the annotated feature.
    pub fn feature(&self) -> (r: Feature)
        ensures
            r == self@.feature,
    {
        self.feature
    }

    /// Feature quality or confidence.
    pub fn score(&self) -> (r: Option<u32>)
        ensures
            r == self@.score,
    {
        self.score
    }

    /// DNA strand on which the feature appears.
    pub fn strand(&self) -> (r: Strand)
        ensures
            r == self@.strand,
    {
        self.strand
    }

    /// See `Phase`.
    pub fn phase(&self) -> (r: Option<Phase>)
        ensures
            r == self@.phase,
    {
        self.phase
    }

    /// Inclusive 0-based index of the first symbol of the feature.
    pub fn start(&self) -> (r: usize)
        ensures
            r == self@.start,
            r < self@.end,
    {
        proof {
            use_type_invariant(self);
        }
        self.start
    }

    /// Exclusive 0-based index just past the last symbol of the feature.
    pub fn end(&self) -> (r: usize)
        ensures
            r == self@.end,
            self@.start < r,
    {
        proof {
            use_type_invariant(self);
        }
        self.end
    }

    /// Attributes of the annotation, unparsed.
    pub fn attributes(&self) -> (r: &str)
        ensures
            r@ == self@.attributes,
    {
        self.attributes.as_str()
    }
}

} // verus!
