use vstd::prelude::*;

use crate::data::{Annotation, AnnotationView, Feature, Phase, Strand};
use crate::text::{
    decimal_of, decimal_string, line_chars, line_views, parse_decimal, push_chars, push_decimal,
    same_chars, split_on, split_tabs, string_from, strip_terminator,
};

verus! {

/// Number of tab-separated columns of an annotation record.
pub const GFF_NUM_COLUMNS: usize = 9;

/// Why one annotation record was rejected; tokens are kept as they stood.
#[derive(Debug, PartialEq, Eq)]
pub enum RecordError {
    /// The record does not have `expected` tab-separated columns.
    ColumnCount { expected: usize, actual: usize },
    UnrecognizedFeature(String),
    InvalidStrand(String),
    InvalidScore(String),
    InvalidEnd(String),
    InvalidStart(String),
    /// The 1-based start coordinate is 0.
    ZeroStart,
    /// The 0-based start is not below the end.
    StartNotBeforeEnd { start: usize, end: usize },
}

/// Abstract value of a `RecordError`.
pub enum RecordFault {
    ColumnCount { expected: usize, actual: usize },
    UnrecognizedFeature(Seq<char>),
    InvalidStrand(Seq<char>),
    InvalidScore(Seq<char>),
    InvalidEnd(Seq<char>),
    InvalidStart(Seq<char>),
    ZeroStart,
    StartNotBeforeEnd { start: usize, end: usize },
}

impl View for RecordError {
    type V = RecordFault;

    open spec fn view(&self) -> RecordFault {
        match self {
            RecordError::ColumnCount { expected, actual } => RecordFault::ColumnCount {
                expected: *expected,
                actual: *actual,
            },
            RecordError::UnrecognizedFeature(t) => RecordFault::UnrecognizedFeature(t@),
            RecordError::InvalidStrand(t) => RecordFault::InvalidStrand(t@),
            RecordError::InvalidScore(t) => RecordFault::InvalidScore(t@),
            RecordError::InvalidEnd(t) => RecordFault::InvalidEnd(t@),
            RecordError::InvalidStart(t) => RecordFault::InvalidStart(t@),
            RecordError::ZeroStart => RecordFault::ZeroStart,
            RecordError::StartNotBeforeEnd { start, end } => RecordFault::StartNotBeforeEnd {
                start: *start,
                end: *end,
            },
        }
    }
}

/// An annotation stream was rejected: the 1-based line of the first invalid
/// record, and why that record was rejected.
#[derive(Debug, PartialEq, Eq)]
pub struct GffError {
    pub line: usize,
    pub cause: RecordError,
}

pub open spec fn feature_of(t: Seq<char>) -> Option<Feature> {
    if t == "start_codon"@ {
        Some(Feature::StartCodon)
    } else if t == "stop_codon"@ {
        Some(Feature::StopCodon)
    } else if t == "CDS"@ {
        Some(Feature::CDS)
    } else if t == "exon"@ {
        Some(Feature::Exon)
    } else {
        None
    }
}

pub open spec fn strand_of(t: Seq<char>) -> Option<Strand> {
    if t == "+"@ {
        Some(Strand::Positive)
    } else if t == "-"@ {
        Some(Strand::Negative)
    } else {
        None
    }
}

/// Phase of a token; any token but `0`, `1`, `2` means no phase.
pub open spec fn phase_of(t: Seq<char>) -> Option<Phase> {
    if t == "0"@ {
        Some(Phase::Zero)
    } else if t == "1"@ {
        Some(Phase::One)
    } else if t == "2"@ {
        Some(Phase::Two)
    } else {
        None
    }
}

/// The annotation that a record (a line without terminator) describes, or
/// why it is rejected, checking the columns in the order: count, feature,
/// strand, score, end, start.
pub open spec fn record_spec(l: Seq<char>) -> Result<AnnotationView, RecordFault> {
    let f = split_on(l, '\t');
    if f.len() != GFF_NUM_COLUMNS {
        Err(RecordFault::ColumnCount { expected: GFF_NUM_COLUMNS, actual: f.len() as usize })
    } else {
        match feature_of(f[2]) {
            None => Err(RecordFault::UnrecognizedFeature(f[2])),
            Some(feature) => match strand_of(f[6]) {
                None => Err(RecordFault::InvalidStrand(f[6])),
                Some(strand) => {
                    if f[5] != "."@ && decimal_of(f[5], u32::MAX as nat) is None {
                        Err(RecordFault::InvalidScore(f[5]))
                    } else {
                        let score = if f[5] == "."@ {
                            None
                        } else {
                            Some(decimal_of(f[5], u32::MAX as nat)->Some_0 as u32)
                        };
                        match decimal_of(f[4], usize::MAX as nat) {
                            None => Err(RecordFault::InvalidEnd(f[4])),
                            Some(end) => match decimal_of(f[3], usize::MAX as nat) {
                                None => Err(RecordFault::InvalidStart(f[3])),
                                Some(s) => if s == 0 {
                                    Err(RecordFault::ZeroStart)
                                } else if s - 1 >= end {
                                    Err(
                                        RecordFault::StartNotBeforeEnd {
                                            start: (s - 1) as usize,
                                            end: end as usize,
                                        },
                                    )
                                } else {
                                    Ok(
                                        AnnotationView {
                                            scaffold: f[0],
                                            source: f[1],
                                            feature,
                                            score,
                                            strand,
                                            phase: phase_of(f[7]),
                                            start: (s - 1) as usize,
                                            end: end as usize,
                                            attributes: f[8],
                                        },
                                    )
                                },
                            },
                        }
                    }
                },
            },
        }
    }
}

/// The annotations of a whole stream, or the 1-based line of its first
/// invalid record together with why it is invalid.
pub open spec fn gff_result(lines: Seq<Seq<char>>) -> Result<
    Seq<AnnotationView>,
    (usize, RecordFault),
>
    decreases lines.len(),
{
    if lines.len() == 0 {
        Ok(Seq::empty())
    } else {
        match gff_result(lines.drop_last()) {
            Err(e) => Err(e),
            Ok(v) => match record_spec(strip_terminator(lines.last())) {
                Ok(a) => Ok(v.push(a)),
                Err(f) => Err((lines.len() as usize, f)),
            },
        }
    }
}

pub open spec fn annotation_views(v: Seq<Annotation>) -> Seq<AnnotationView> {
    v.map_values(|a: Annotation| a@)
}

fn feature_from_token(t: &Vec<char>) -> (r: Option<Feature>)
    ensures
        r == feature_of(t@),
{
    if same_chars(t, "start_codon") {
        Some(Feature::StartCodon)
    } else if same_chars(t, "stop_codon") {
        Some(Feature::StopCodon)
    } else if same_chars(t, "CDS") {
        Some(Feature::CDS)
    } else if same_chars(t, "exon") {
        Some(Feature::Exon)
    } else {
        None
    }
}

fn strand_from_token(t: &Vec<char>) -> (r: Option<Strand>)
    ensures
        r == strand_of(t@),
{
    if same_chars(t, "+") {
        Some(Strand::Positive)
    } else if same_chars(t, "-") {
        Some(Strand::Negative)
    } else {
        None
    }
}

fn phase_from_token(t: &Vec<char>) -> (r: Option<Phase>)
    ensures
        r == phase_of(t@),
{
    if same_chars(t, "0") {
        Some(Phase::Zero)
    } else if same_chars(t, "1") {
        Some(Phase::One)
    } else if same_chars(t, "2") {
        Some(Phase::Two)
    } else {
        None
    }
}

/// Parses one annotation record; a terminator at its end is ignored.
pub fn parse_gff_line(line: &String) -> (r: Result<Annotation, RecordError>)
    ensures
        match r {
            Ok(a) => record_spec(strip_terminator(line@)) == Ok::<AnnotationView, RecordFault>(a@),
            Err(e) => record_spec(strip_terminator(line@)) == Err::<AnnotationView, RecordFault>(
                e@,
            ),
        },
{
    let cs = line_chars(line);
    let tokens = split_tabs(&cs);
    let ghost f = split_on(cs@, '\t');
    let num_columns = tokens.len();
    if num_columns != GFF_NUM_COLUMNS {
        return Err(RecordError::ColumnCount { expected: GFF_NUM_COLUMNS, actual: num_columns });
    }
    assert(tokens@[2]@ == f[2] && tokens@[3]@ == f[3] && tokens@[4]@ == f[4]);
    assert(tokens@[5]@ == f[5] && tokens@[6]@ == f[6] && tokens@[7]@ == f[7]);
    assert(tokens@[0]@ == f[0] && tokens@[1]@ == f[1] && tokens@[8]@ == f[8]);
    let feature = match feature_from_token(&tokens[2]) {
        Some(x) => x,
        None => {
            return Err(RecordError::UnrecognizedFeature(string_from(&tokens[2])));
        },
    };
    let strand = match strand_from_token(&tokens[6]) {
        Some(x) => x,
        None => {
            return Err(RecordError::InvalidStrand(string_from(&tokens[6])));
        },
    };
    let score: Option<u32> = if same_chars(&tokens[5], ".") {
        None
    } else {
        match parse_decimal(&tokens[5], u32::MAX as u64) {
            Some(v) => Some(v as u32),
            None => {
                return Err(RecordError::InvalidScore(string_from(&tokens[5])));
            },
        }
    };
    let phase = phase_from_token(&tokens[7]);
    // The wire end is 1-based inclusive, which is the same number as the
    // 0-based exclusive end.
    let end: usize = match parse_decimal(&tokens[4], usize::MAX as u64) {
        Some(v) => v as usize,
        None => {
            return Err(RecordError::InvalidEnd(string_from(&tokens[4])));
        },
    };
    let wire_start: usize = match parse_decimal(&tokens[3], usize::MAX as u64) {
        Some(v) => v as usize,
        None => {
            return Err(RecordError::InvalidStart(string_from(&tokens[3])));
        },
    };
    if wire_start == 0 {
        return Err(RecordError::ZeroStart);
    }
    let start = wire_start - 1;
    if start >= end {
        return Err(RecordError::StartNotBeforeEnd { start, end });
    }
    Ok(
        Annotation::new(
            string_from(&tokens[0]),
            string_from(&tokens[1]),
            feature,
            score,
            strand,
            phase,
            start,
            end,
            string_from(&tokens[8]),
        ),
    )
}

proof fn lemma_gff_err_stays(ls: Seq<Seq<char>>, j: int, e: (usize, RecordFault))
    requires
        0 <= j <= ls.len(),
        gff_result(ls.subrange(0, j)) == Err::<Seq<AnnotationView>, (usize, RecordFault)>(e),
    ensures
        gff_result(ls) == Err::<Seq<AnnotationView>, (usize, RecordFault)>(e),
    decreases ls.len() - j,
{
    if j < ls.len() {
        assert(ls.subrange(0, j + 1).drop_last() =~= ls.subrange(0, j));
        lemma_gff_err_stays(ls, j + 1, e);
    } else {
        assert(ls.subrange(0, j) =~= ls);
    }
}

/// Reads an annotation stream, given as its lines in order, into its
/// annotations; the first invalid record rejects the whole stream.
pub fn parse_gff(lines: &Vec<String>) -> (r: Result<Vec<Annotation>, GffError>)
    ensures
        match r {
            Ok(v) => gff_result(line_views(lines@)) == Ok::<
                Seq<AnnotationView>,
                (usize, RecordFault),
            >(annotation_views(v@)),
            Err(e) => gff_result(line_views(lines@)) == Err::<
                Seq<AnnotationView>,
                (usize, RecordFault),
            >((e.line, e.cause@)),
        },
{
    let ghost ls = line_views(lines@);
    let mut annotations: Vec<Annotation> = Vec::new();
    let mut i: usize = 0;
    assert(ls.subrange(0, 0) =~= Seq::<Seq<char>>::empty());
    assert(annotation_views(annotations@) =~= Seq::<AnnotationView>::empty());
    while i < lines.len()
        invariant
            i <= lines.len(),
            ls == line_views(lines@),
            gff_result(ls.subrange(0, i as int)) == Ok::<
                Seq<AnnotationView>,
                (usize, RecordFault),
            >(annotation_views(annotations@)),
        decreases lines.len() - i,
    {
        assert(ls.subrange(0, i + 1).drop_last() =~= ls.subrange(0, i as int));
        assert(ls.subrange(0, i + 1).last() == lines@[i as int]@);
        match parse_gff_line(&lines[i]) {
            Ok(a) => {
                let ghost prev = annotations@;
                annotations.push(a);
                assert(annotation_views(annotations@) =~= annotation_views(prev).push(a@));
            },
            Err(cause) => {
                let err = GffError { line: i + 1, cause };
                proof {
                    lemma_gff_err_stays(ls, i + 1, (err.line, err.cause@));
                }
                return Err(err);
            },
        }
        i += 1;
    }
    assert(ls.subrange(0, lines.len() as int) =~= ls);
    Ok(annotations)
}

} // verus!

verus! {

/// A record whose start column is `0` is rejected for that zero start, before
/// start and end are compared, once its earlier columns are valid.
pub proof fn lemma_zero_start_rejected(l: Seq<char>)
    requires
        split_on(l, '\t').len() == GFF_NUM_COLUMNS,
        feature_of(split_on(l, '\t')[2]) is Some,
        strand_of(split_on(l, '\t')[6]) is Some,
        split_on(l, '\t')[5] == "."@ || decimal_of(split_on(l, '\t')[5], u32::MAX as nat) is Some,
        decimal_of(split_on(l, '\t')[4], usize::MAX as nat) is Some,
        split_on(l, '\t')[3] == "0"@,
    ensures
        record_spec(l) == Err::<AnnotationView, RecordFault>(RecordFault::ZeroStart),
{
    reveal_strlit("0");
    let z = split_on(l, '\t')[3];
    assert(z.len() == 1 && z[0] == '0');
    assert(z.drop_last() =~= Seq::<char>::empty());
    assert(crate::text::digits_value(z.drop_last()) == 0);
    assert(z.last() == '0');
    assert(crate::text::digits_of(z) == z);
    assert(crate::text::digits_value(z) == 0);
}

/// The phase column never makes a record fail: two records that differ only
/// there are both accepted or both rejected, and a phase token other than
/// `0`, `1`, `2` gives no phase.
pub proof fn lemma_phase_never_rejects(l1: Seq<char>, l2: Seq<char>)
    requires
        split_on(l1, '\t').len() == GFF_NUM_COLUMNS,
        split_on(l2, '\t').len() == GFF_NUM_COLUMNS,
        forall|i: int|
            0 <= i < GFF_NUM_COLUMNS && i != 7 ==> #[trigger] split_on(l1, '\t')[i] == split_on(
                l2,
                '\t',
            )[i],
    ensures
        (record_spec(l1) is Ok) == (record_spec(l2) is Ok),
        record_spec(l1) is Ok && split_on(l1, '\t')[7] != "0"@ && split_on(l1, '\t')[7] != "1"@
            && split_on(l1, '\t')[7] != "2"@ ==> record_spec(l1)->Ok_0.phase is None,
{
    let f1 = split_on(l1, '\t');
    let f2 = split_on(l2, '\t');
    assert(f1[2] == f2[2] && f1[3] == f2[3] && f1[4] == f2[4]);
    assert(f1[5] == f2[5] && f1[6] == f2[6]);
}

/// A record without exactly nine tab-separated columns is rejected, stating
/// the expected and the actual count.
pub proof fn lemma_column_count_rejected(l: Seq<char>)
    requires
        split_on(l, '\t').len() != GFF_NUM_COLUMNS,
    ensures
        record_spec(l) == Err::<AnnotationView, RecordFault>(
            RecordFault::ColumnCount { expected: 9, actual: split_on(l, '\t').len() as usize },
        ),
{
}

} // verus!

verus! {

/// Wording of why a record was rejected.
pub open spec fn fault_message(f: RecordFault) -> Seq<char> {
    match f {
        RecordFault::ColumnCount { expected, actual } => "Wrong number of tab separated columns. Expected "@
            + decimal_string(expected as nat) + " got "@ + decimal_string(actual as nat) + "."@,
        RecordFault::UnrecognizedFeature(t) => "Unrecognized feature: "@ + t,
        RecordFault::InvalidStrand(t) => "Invalid strand, only +, - are valid. Got: "@ + t,
        RecordFault::InvalidScore(t) => "Score is not a non-negative integer. Got: "@ + t,
        RecordFault::InvalidEnd(t) => "Feature end has to be a positive integer. Got: "@ + t,
        RecordFault::InvalidStart(t) => "Annotation start has to be a positive integer. Got: "@ + t,
        RecordFault::ZeroStart => "Feature start position is 0 but must be bigger or equal to 1."@,
        RecordFault::StartNotBeforeEnd { start, end } =>
            "Feature start index is greater or equal to end index. "@ + decimal_string(start as nat)
                + " >= "@ + decimal_string(end as nat),
    }
}

/// Wording of the line context of a rejected stream named `label`.
pub open spec fn line_context(line: usize, label: Seq<char>) -> Seq<char> {
    "Failed to parse line "@ + decimal_string(line as nat) + " of file "@ + label + "."@
}

impl RecordError {
    /// Says why the record was rejected.
    pub fn message(&self) -> (r: String)
        ensures
            r@ == fault_message(self@),
    {
        let mut s = String::new();
        match self {
            RecordError::ColumnCount { expected, actual } => {
                push_chars(&mut s, "Wrong number of tab separated columns. Expected ");
                push_decimal(&mut s, *expected as u64);
                push_chars(&mut s, " got ");
                push_decimal(&mut s, *actual as u64);
                push_chars(&mut s, ".");
            },
            RecordError::UnrecognizedFeature(t) => {
                push_chars(&mut s, "Unrecognized feature: ");
                push_chars(&mut s, t.as_str());
            },
            RecordError::InvalidStrand(t) => {
                push_chars(&mut s, "Invalid strand, only +, - are valid. Got: ");
                push_chars(&mut s, t.as_str());
            },
            RecordError::InvalidScore(t) => {
                push_chars(&mut s, "Score is not a non-negative integer. Got: ");
                push_chars(&mut s, t.as_str());
            },
            RecordError::InvalidEnd(t) => {
                push_chars(&mut s, "Feature end has to be a positive integer. Got: ");
                push_chars(&mut s, t.as_str());
            },
            RecordError::InvalidStart(t) => {
                push_chars(&mut s, "Annotation start has to be a positive integer. Got: ");
                push_chars(&mut s, t.as_str());
            },
            RecordError::ZeroStart => {
                push_chars(&mut s, "Feature start position is 0 but must be bigger or equal to 1.");
            },
            RecordError::StartNotBeforeEnd { start, end } => {
                push_chars(&mut s, "Feature start index is greater or equal to end index. ");
                push_decimal(&mut s, *start as u64);
                push_chars(&mut s, " >= ");
                push_decimal(&mut s, *end as u64);
            },
        }
        s
    }
}

impl GffError {
    /// The outer message: which line of the stream named `label` failed.
    pub fn message(&self, label: &str) -> (r: String)
        ensures
            r@ == line_context(self.line, label@),
    {
        let mut s = String::new();
        push_chars(&mut s, "Failed to parse line ");
        push_decimal(&mut s, self.line as u64);
        push_chars(&mut s, " of file ");
        push_chars(&mut s, label);
        push_chars(&mut s, ".");
        s
    }

    /// The root cause: why the record on that line was rejected.
    pub fn root_cause(&self) -> (r: String)
        ensures
            r@ == fault_message(self.cause@),
    {
        self.cause.message()
    }
}

} // verus!
