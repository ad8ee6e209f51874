use vstd::prelude::*;

use crate::data::{Scaffold, ScaffoldView, Symbol};
use crate::text::{
    decimal_string, line_chars, line_views, push_chars, push_decimal, string_of,
    strip_terminator,
};

verus! {

/// The symbol that a body character stands for, case-insensitively.
pub open spec fn symbol_of(c: char) -> Option<Symbol> {
    if c == 'A' || c == 'a' {
        Some(Symbol::Adenine)
    } else if c == 'C' || c == 'c' {
        Some(Symbol::Cytosine)
    } else if c == 'T' || c == 't' {
        Some(Symbol::Thymine)
    } else if c == 'G' || c == 'g' {
        Some(Symbol::Guanine)
    } else if c == 'N' || c == 'n' {
        Some(Symbol::Other)
    } else {
        None
    }
}

/// The symbols of a body line, or its first character that is no symbol.
pub open spec fn symbols_of(l: Seq<char>) -> Result<Seq<Symbol>, char>
    decreases l.len(),
{
    if l.len() == 0 {
        Ok(Seq::<Symbol>::empty())
    } else {
        match symbols_of(l.drop_last()) {
            Err(c) => Err(c),
            Ok(s) => match symbol_of(l.last()) {
                Some(x) => Ok(s.push(x)),
                None => Err(l.last()),
            },
        }
    }
}

/// Why a sequence-format stream was rejected.
#[derive(Clone, Copy, Debug, PartialEq, Eq, Structural)]
pub enum FastaError {
    /// A body character outside `A, C, T, G, N` (any case), on a 1-based line.
    InvalidSymbol { line: usize, symbol: char },
    /// A body line, at a 1-based line, before any header line.
    MissingHeader { line: usize },
    /// The stream holds no header line.
    EmptyInput,
}

/// Scaffolds sealed so far, and the one in progress.
pub struct FastaScan {
    pub done: Seq<ScaffoldView>,
    pub current: Option<ScaffoldView>,
}

pub open spec fn is_header(l: Seq<char>) -> bool {
    l.len() > 0 && l[0] == '>'
}

/// The state after the lines `lines`, read in order, or the first error.
pub open spec fn fasta_scan(lines: Seq<Seq<char>>) -> Result<FastaScan, FastaError>
    decreases lines.len(),
{
    if lines.len() == 0 {
        Ok(FastaScan { done: Seq::empty(), current: None })
    } else {
        match fasta_scan(lines.drop_last()) {
            Err(e) => Err(e),
            Ok(st) => {
                let l = strip_terminator(lines.last());
                let n = lines.len() as usize;
                if is_header(l) {
                    let done = match st.current {
                        Some(c) => st.done.push(c),
                        None => st.done,
                    };
                    Ok(
                        FastaScan {
                            done,
                            current: Some(ScaffoldView { name: l.drop_first(), sequence: Seq::empty() }),
                        },
                    )
                } else {
                    match st.current {
                        None => Err(FastaError::MissingHeader { line: n }),
                        Some(c) => match symbols_of(l) {
                            Err(x) => Err(FastaError::InvalidSymbol { line: n, symbol: x }),
                            Ok(s) => Ok(
                                FastaScan {
                                    done: st.done,
                                    current: Some(
                                        ScaffoldView { name: c.name, sequence: c.sequence + s },
                                    ),
                                },
                            ),
                        },
                    }
                }
            },
        }
    }
}

/// The scaffolds of a whole stream, in order, or the error it is rejected with.
pub open spec fn fasta_result(lines: Seq<Seq<char>>) -> Result<Seq<ScaffoldView>, FastaError> {
    match fasta_scan(lines) {
        Err(e) => Err(e),
        Ok(st) => match st.current {
            None => Err(FastaError::EmptyInput),
            Some(c) => Ok(st.done.push(c)),
        },
    }
}

pub open spec fn scaffold_views(v: Seq<Scaffold>) -> Seq<ScaffoldView> {
    v.map_values(|s: Scaffold| s@)
}

proof fn lemma_symbols_err_stays(l: Seq<char>, j: int, c: char)
    requires
        0 <= j <= l.len(),
        symbols_of(l.subrange(0, j)) == Err::<Seq<Symbol>, char>(c),
    ensures
        symbols_of(l) == Err::<Seq<Symbol>, char>(c),
    decreases l.len() - j,
{
    if j < l.len() {
        assert(l.subrange(0, j + 1).drop_last() =~= l.subrange(0, j));
        lemma_symbols_err_stays(l, j + 1, c);
    } else {
        assert(l.subrange(0, j) =~= l);
    }
}

proof fn lemma_scan_err_stays(ls: Seq<Seq<char>>, j: int, e: FastaError)
    requires
        0 <= j <= ls.len(),
        fasta_scan(ls.subrange(0, j)) == Err::<FastaScan, FastaError>(e),
    ensures
        fasta_scan(ls) == Err::<FastaScan, FastaError>(e),
    decreases ls.len() - j,
{
    if j < ls.len() {
        assert(ls.subrange(0, j + 1).drop_last() =~= ls.subrange(0, j));
        lemma_scan_err_stays(ls, j + 1, e);
    } else {
        assert(ls.subrange(0, j) =~= ls);
    }
}

/// The symbol for a body character, if it is one.
pub fn symbol_from_char(c: char) -> (r: Option<Symbol>)
    ensures
        r == symbol_of(c),
{
    match c {
        'A' | 'a' => Some(Symbol::Adenine),
        'C' | 'c' => Some(Symbol::Cytosine),
        'T' | 't' => Some(Symbol::Thymine),
        'G' | 'g' => Some(Symbol::Guanine),
        'N' | 'n' => Some(Symbol::Other),
        _ => None,
    }
}

/// A scaffold being read: its name and the symbols met so far.
struct ScaffoldBuilder {
    name: String,
    sequence: Vec<Symbol>,
}

impl View for ScaffoldBuilder {
    type V = ScaffoldView;

    closed spec fn view(&self) -> ScaffoldView {
        ScaffoldView { name: self.name@, sequence: self.sequence@ }
    }
}

impl ScaffoldBuilder {
    fn new(name: String) -> (r: Self)
        ensures
            r@ == (ScaffoldView { name: name@, sequence: Seq::empty() }),
    {
        ScaffoldBuilder { name, sequence: Vec::new() }
    }

    /// Appends the symbols of a body line; on an invalid character nothing is
    /// appended and that character is returned.
    fn extend_from_chars(&mut self, cs: &Vec<char>) -> (r: Result<(), char>)
        ensures
            match symbols_of(cs@) {
                Ok(s) => r is Ok && final(self)@ == (ScaffoldView {
                    name: old(self)@.name,
                    sequence: old(self)@.sequence + s,
                }),
                Err(c) => r == Err::<(), char>(c) && final(self)@ == old(self)@,
            },
    {
        let mut syms: Vec<Symbol> = Vec::new();
        let mut i: usize = 0;
        while i < cs.len()
            invariant
                i <= cs.len(),
                symbols_of(cs@.subrange(0, i as int)) == Ok::<Seq<Symbol>, char>(syms@),
            decreases cs.len() - i,
        {
            assert(cs@.subrange(0, i + 1).drop_last() =~= cs@.subrange(0, i as int));
            match symbol_from_char(cs[i]) {
                Some(s) => syms.push(s),
                None => {
                    proof {
                        lemma_symbols_err_stays(cs@, i + 1, cs@[i as int]);
                    }
                    return Err(cs[i]);
                },
            }
            i += 1;
        }
        assert(cs@.subrange(0, cs.len() as int) =~= cs@);
        let ghost before = self.sequence@;
        let mut k: usize = 0;
        while k < syms.len()
            invariant
                k <= syms.len(),
                self.name@ == old(self).name@,
                before == old(self).sequence@,
                self.sequence@ == before + syms@.subrange(0, k as int),
            decreases syms.len() - k,
        {
            self.sequence.push(syms[k]);
            assert(before + syms@.subrange(0, k + 1) =~= (before + syms@.subrange(0, k as int)).push(
                syms@[k as int],
            ));
            k += 1;
        }
        assert(syms@.subrange(0, syms.len() as int) =~= syms@);
        Ok(())
    }

    fn build(self) -> (r: Scaffold)
        ensures
            r@ == self@,
    {
        Scaffold::new(self.name, self.sequence)
    }
}

spec fn builder_view(b: Option<ScaffoldBuilder>) -> Option<ScaffoldView> {
    match b {
        Some(x) => Some(x@),
        None => None,
    }
}

/// Reads a sequence-format stream, given as its lines in order (a line may
/// still end in `\n` or `\r\n`), into its scaffolds.
pub fn parse_fasta(lines: &Vec<String>) -> (r: Result<Vec<Scaffold>, FastaError>)
    ensures
        match r {
            Ok(v) => fasta_result(line_views(lines@)) == Ok::<Seq<ScaffoldView>, FastaError>(
                scaffold_views(v@),
            ),
            Err(e) => fasta_result(line_views(lines@)) == Err::<Seq<ScaffoldView>, FastaError>(e),
        },
{
    let ghost ls = line_views(lines@);
    let mut scaffolds: Vec<Scaffold> = Vec::new();
    let mut builder: Option<ScaffoldBuilder> = None;
    let mut i: usize = 0;
    assert(ls.subrange(0, 0) =~= Seq::<Seq<char>>::empty());
    assert(scaffold_views(scaffolds@) =~= Seq::<ScaffoldView>::empty());
    while i < lines.len()
        invariant
            i <= lines.len(),
            ls == line_views(lines@),
            fasta_scan(ls.subrange(0, i as int)) == Ok::<FastaScan, FastaError>(
                FastaScan { done: scaffold_views(scaffolds@), current: builder_view(builder) },
            ),
        decreases lines.len() - i,
    {
        assert(ls.subrange(0, i + 1).drop_last() =~= ls.subrange(0, i as int));
        assert(ls.subrange(0, i + 1).last() == lines@[i as int]@);
        let line = line_chars(&lines[i]);
        if line.len() > 0 && line[0] == '>' {
            let name = string_of(&line, 1, line.len());
            assert(name@ =~= line@.drop_first());
            match builder {
                Some(b) => {
                    let s = b.build();
                    let ghost prev = scaffolds@;
                    scaffolds.push(s);
                    assert(scaffold_views(scaffolds@) =~= scaffold_views(prev).push(s@));
                },
                None => {},
            }
            builder = Some(ScaffoldBuilder::new(name));
        } else {
            match builder {
                None => {
                    proof {
                        lemma_scan_err_stays(ls, i + 1, FastaError::MissingHeader { line: (i + 1) as usize });
                    }
                    return Err(FastaError::MissingHeader { line: i + 1 });
                },
                Some(mut b) => {
                    match b.extend_from_chars(&line) {
                        Ok(()) => {
                            builder = Some(b);
                        },
                        Err(c) => {
                            proof {
                                lemma_scan_err_stays(
                                    ls,
                                    i + 1,
                                    FastaError::InvalidSymbol { line: (i + 1) as usize, symbol: c },
                                );
                            }
                            return Err(FastaError::InvalidSymbol { line: i + 1, symbol: c });
                        },
                    }
                },
            }
        }
        i += 1;
    }
    assert(ls.subrange(0, lines.len() as int) =~= ls);
    match builder {
        None => Err(FastaError::EmptyInput),
        Some(b) => {
            let s = b.build();
            let ghost prev = scaffolds@;
            scaffolds.push(s);
            assert(scaffold_views(scaffolds@) =~= scaffold_views(prev).push(s@));
            Ok(scaffolds)
        },
    }
}

} // verus!

verus! {

/// Number of header lines in `lines`.
pub open spec fn count_headers(lines: Seq<Seq<char>>) -> nat
    decreases lines.len(),
{
    if lines.len() == 0 {
        0
    } else {
        count_headers(lines.drop_last()) + if is_header(strip_terminator(lines.last())) {
            1nat
        } else {
            0nat
        }
    }
}

/// Number of characters on the body lines that follow the `k`-th header
/// (counted from 0) and come before the next one.
pub open spec fn body_chars(lines: Seq<Seq<char>>, k: nat) -> nat
    decreases lines.len(),
{
    if lines.len() == 0 {
        0
    } else {
        let l = strip_terminator(lines.last());
        body_chars(lines.drop_last(), k) + if !is_header(l) && count_headers(lines.drop_last())
            == k + 1 {
            l.len()
        } else {
            0
        }
    }
}

/// A body line maps to one symbol per character, in order, or is rejected
/// with one of its characters that is no symbol.
pub proof fn lemma_symbols_of(l: Seq<char>)
    ensures
        match symbols_of(l) {
            Ok(s) => s.len() == l.len() && forall|i: int|
                0 <= i < l.len() ==> symbol_of(#[trigger] l[i]) == Some(s[i]),
            Err(c) => symbol_of(c) is None && l.contains(c),
        },
    decreases l.len(),
{
    if l.len() > 0 {
        let p = l.drop_last();
        lemma_symbols_of(p);
        match symbols_of(p) {
            Ok(s) => {
                assert forall|i: int| 0 <= i < p.len() implies #[trigger] l[i] == p[i] by {}
            },
            Err(c) => {
                let i = choose|i: int| 0 <= i < p.len() && p[i] == c;
                assert(l[i] == c);
            },
        }
        if symbols_of(p) is Ok && symbol_of(l.last()) is None {
            assert(l[l.len() - 1] == l.last());
        }
    }
}

/// The symbol table: `A, C, T, G, N`, in either case, map to Adenine,
/// Cytosine, Thymine, Guanine and Other, whose codes are 0, 2, 1, 3 and 4.
pub proof fn lemma_symbol_table()
    ensures
        symbol_of('A') == Some(Symbol::Adenine) && symbol_of('a') == Some(Symbol::Adenine),
        symbol_of('C') == Some(Symbol::Cytosine) && symbol_of('c') == Some(Symbol::Cytosine),
        symbol_of('T') == Some(Symbol::Thymine) && symbol_of('t') == Some(Symbol::Thymine),
        symbol_of('G') == Some(Symbol::Guanine) && symbol_of('g') == Some(Symbol::Guanine),
        symbol_of('N') == Some(Symbol::Other) && symbol_of('n') == Some(Symbol::Other),
        crate::data::symbol_code(Symbol::Adenine) == 0,
        crate::data::symbol_code(Symbol::Cytosine) == 2,
        crate::data::symbol_code(Symbol::Thymine) == 1,
        crate::data::symbol_code(Symbol::Guanine) == 3,
        crate::data::symbol_code(Symbol::Other) == 4,
        forall|c: char|
            #![trigger symbol_of(c)]
            symbol_of(c) is Some <==> (c == 'A' || c == 'a' || c == 'C' || c == 'c' || c == 'T'
                || c == 't' || c == 'G' || c == 'g' || c == 'N' || c == 'n'),
{
}

proof fn lemma_body_chars_beyond(lines: Seq<Seq<char>>, k: nat)
    requires
        count_headers(lines) <= k,
    ensures
        body_chars(lines, k) == 0,
    decreases lines.len(),
{
    if lines.len() > 0 {
        lemma_body_chars_beyond(lines.drop_last(), k);
    }
}

proof fn lemma_scan_counts(lines: Seq<Seq<char>>)
    requires
        fasta_scan(lines) is Ok,
    ensures
        ({
            let st = fasta_scan(lines)->Ok_0;
            &&& st.done.len() + (if st.current is Some { 1nat } else { 0nat }) == count_headers(lines)
            &&& (st.current is Some <==> count_headers(lines) > 0)
            &&& forall|k: int|
                0 <= k < st.done.len() ==> (#[trigger] st.done[k]).sequence.len() == body_chars(
                    lines,
                    k as nat,
                )
            &&& st.current is Some ==> st.current->Some_0.sequence.len() == body_chars(
                lines,
                st.done.len(),
            )
        }),
    decreases lines.len(),
{
    if lines.len() > 0 {
        let p = lines.drop_last();
        lemma_scan_counts(p);
        let st = fasta_scan(p)->Ok_0;
        let l = strip_terminator(lines.last());
        if is_header(l) {
            lemma_body_chars_beyond(p, count_headers(p));
        } else {
            lemma_symbols_of(l);
        }
    }
}

/// For an accepted stream there are as many scaffolds as header lines, and
/// each scaffold has as many symbols as there are characters on its body lines.
pub proof fn lemma_scaffold_counts(lines: Seq<Seq<char>>)
    requires
        fasta_result(lines) is Ok,
    ensures
        fasta_result(lines)->Ok_0.len() == count_headers(lines),
        forall|k: int|
            0 <= k < fasta_result(lines)->Ok_0.len() ==> (#[trigger] fasta_result(
                lines,
            )->Ok_0[k]).sequence.len() == body_chars(lines, k as nat),
{
    lemma_scan_counts(lines);
}

/// A stream whose first line is a body line is rejected: no scaffold is in
/// progress there.
pub proof fn lemma_body_first_rejected(lines: Seq<Seq<char>>)
    requires
        lines.len() > 0,
        !is_header(strip_terminator(lines[0])),
    ensures
        fasta_result(lines) == Err::<Seq<ScaffoldView>, FastaError>(
            FastaError::MissingHeader { line: 1 },
        ),
{
    let first = lines.subrange(0, 1);
    assert(first.drop_last() =~= Seq::<Seq<char>>::empty());
    assert(first.last() == lines[0]);
    assert(fasta_scan(first.drop_last()) == Ok::<FastaScan, FastaError>(
        FastaScan { done: Seq::empty(), current: None },
    ));
    assert(fasta_scan(first) == Err::<FastaScan, FastaError>(
        FastaError::MissingHeader { line: 1 },
    ));
    lemma_scan_err_stays(lines, 1, FastaError::MissingHeader { line: 1 });
}

/// An empty stream, or one without any header line, is rejected with a
/// structural error.
pub proof fn lemma_no_header_rejected(lines: Seq<Seq<char>>)
    requires
        count_headers(lines) == 0,
    ensures
        lines.len() == 0 ==> fasta_result(lines) == Err::<Seq<ScaffoldView>, FastaError>(
            FastaError::EmptyInput,
        ),
        lines.len() > 0 ==> fasta_result(lines) == Err::<Seq<ScaffoldView>, FastaError>(
            FastaError::MissingHeader { line: 1 },
        ),
{
    if lines.len() > 0 {
        if is_header(strip_terminator(lines[0])) {
            lemma_first_header_counted(lines);
        }
        lemma_body_first_rejected(lines);
    }
}

proof fn lemma_first_header_counted(lines: Seq<Seq<char>>)
    requires
        lines.len() > 0,
        is_header(strip_terminator(lines[0])),
    ensures
        count_headers(lines) > 0,
    decreases lines.len(),
{
    if lines.len() > 1 {
        assert(lines.drop_last()[0] == lines[0]);
        lemma_first_header_counted(lines.drop_last());
    }
}

} // verus!

verus! {

/// Wording of why the stream named `label` was rejected.
pub open spec fn fasta_message(e: FastaError, label: Seq<char>) -> Seq<char> {
    match e {
        FastaError::InvalidSymbol { line, symbol } => "Encountered invalid symbol "@ + seq![symbol]
            + " on line "@ + decimal_string(line as nat) + " of file "@ + label + "."@,
        FastaError::MissingHeader { line } => "Invalid FASTA file "@ + label
            + ": no scaffold in progress on line "@ + decimal_string(line as nat) + "."@,
        FastaError::EmptyInput => "Empty FASTA file "@ + label + "."@,
    }
}

impl FastaError {
    /// Says why the stream named `label` was rejected.
    pub fn message(&self, label: &str) -> (r: String)
        ensures
            r@ == fasta_message(*self, label@),
    {
        let mut s = String::new();
        match self {
            FastaError::InvalidSymbol { line, symbol } => {
                push_chars(&mut s, "Encountered invalid symbol ");
                s.push(*symbol);
                push_chars(&mut s, " on line ");
                push_decimal(&mut s, *line as u64);
                push_chars(&mut s, " of file ");
                push_chars(&mut s, label);
                push_chars(&mut s, ".");
            },
            FastaError::MissingHeader { line } => {
                push_chars(&mut s, "Invalid FASTA file ");
                push_chars(&mut s, label);
                push_chars(&mut s, ": no scaffold in progress on line ");
                push_decimal(&mut s, *line as u64);
                push_chars(&mut s, ".");
            },
            FastaError::EmptyInput => {
                push_chars(&mut s, "Empty FASTA file ");
                push_chars(&mut s, label);
                push_chars(&mut s, ".");
            },
        }
        s
    }
}

} // verus!
