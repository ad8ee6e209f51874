use dna_formats::data::Symbol;
use dna_formats::fasta::{parse_fasta, symbol_from_char, FastaError};

fn lines(text: &[&str]) -> Vec<String> {
    text.iter().map(|l| String::from(*l)).collect()
}

fn first_scaffold_lines() -> Vec<String> {
    let mut v = vec![String::from(">scaffold_1\n")];
    let row = "ACGTNacgtnACGTNacgtnACGTNacgtnACGTNacgtnACGTNacgtnACGTNacgtnACGTNacgtn\n";
    for _ in 0..4 {
        v.push(String::from(row));
    }
    v
}

#[test]
fn test_load_fasta() {
    let mut input = first_scaffold_lines();
    input.push(String::from(">scaffold_2\r\n"));
    input.push(String::from("TTCTGNA\r\n"));
    let mut scaffolds = parse_fasta(&input).unwrap();
    assert_eq!(scaffolds.len(), 2);

    let second = scaffolds.pop().unwrap();
    let first = scaffolds.pop().unwrap();

    assert_eq!(first.name(), "scaffold_1");
    assert_eq!(first.sequence().len(), 280);
    assert_eq!(second.name(), "scaffold_2");

    let expected_sequence = vec![
        Symbol::Thymine,
        Symbol::Thymine,
        Symbol::Cytosine,
        Symbol::Thymine,
        Symbol::Guanine,
        Symbol::Other,
        Symbol::Adenine,
    ];
    assert_eq!(second.sequence(), &expected_sequence[..]);
}

#[test]
fn scaffold_count_matches_headers_and_symbols() {
    let input = lines(&[">a desc", "AC", "gt", ">b", ">c", "N", "", "nA"]);
    let s = parse_fasta(&input).unwrap();
    assert_eq!(s.len(), 3);
    assert_eq!(s[0].name(), "a desc");
    assert_eq!(s[0].sequence().len(), 4);
    assert_eq!(s[1].name(), "b");
    assert_eq!(s[1].sequence().len(), 0);
    assert_eq!(s[2].name(), "c");
    assert_eq!(
        s[2].sequence(),
        &[Symbol::Other, Symbol::Other, Symbol::Adenine][..]
    );
}

#[test]
fn symbol_table_round_trip() {
    let table = [
        ('A', Symbol::Adenine, 0u8),
        ('C', Symbol::Cytosine, 2u8),
        ('T', Symbol::Thymine, 1u8),
        ('G', Symbol::Guanine, 3u8),
        ('N', Symbol::Other, 4u8),
    ];
    for (c, sym, code) in table {
        assert_eq!(symbol_from_char(c), Some(sym));
        assert_eq!(symbol_from_char(c.to_ascii_lowercase()), Some(sym));
        assert_eq!(sym.code(), code);
        let as_u8: u8 = sym.into();
        assert_eq!(as_u8, code);
        let as_i32: i32 = sym.into();
        assert_eq!(as_i32, code as i32);
        let as_usize: usize = sym.into();
        assert_eq!(as_usize, code as usize);
    }
    assert_eq!(symbol_from_char('X'), None);
    assert_eq!(symbol_from_char('u'), None);
}

#[test]
fn invalid_symbol_is_reported() {
    let input = lines(&[">s", "ACGT", "ACXGZ"]);
    assert_eq!(
        parse_fasta(&input).err(),
        Some(FastaError::InvalidSymbol { line: 3, symbol: 'X' })
    );
}

#[test]
fn empty_input_is_rejected() {
    assert_eq!(parse_fasta(&Vec::new()).err(), Some(FastaError::EmptyInput));
}

#[test]
fn input_without_header_is_rejected() {
    let input = lines(&["ACGT", "GG"]);
    assert_eq!(
        parse_fasta(&input).err(),
        Some(FastaError::MissingHeader { line: 1 })
    );
}

#[test]
fn body_before_header_is_rejected() {
    let input = lines(&["AC", ">s", "GG"]);
    assert_eq!(
        parse_fasta(&input).err(),
        Some(FastaError::MissingHeader { line: 1 })
    );
}

#[test]
fn header_keeps_description_and_drops_terminator() {
    let input = lines(&[">chr1 some description\r\n", "a\n"]);
    let s = parse_fasta(&input).unwrap();
    assert_eq!(s[0].name(), "chr1 some description");
    assert_eq!(s[0].sequence(), &[Symbol::Adenine][..]);
}

#[test]
fn scaffold_new_keeps_fields() {
    let s = dna_formats::data::Scaffold::new(String::from("x"), vec![Symbol::Guanine]);
    assert_eq!(s.name(), "x");
    assert_eq!(s.sequence(), &[Symbol::Guanine][..]);
}

#[test]
fn fasta_error_messages() {
    assert_eq!(
        FastaError::InvalidSymbol { line: 30, symbol: 'X' }.message("a.fa"),
        "Encountered invalid symbol X on line 30 of file a.fa."
    );
    assert_eq!(
        FastaError::MissingHeader { line: 1 }.message("a.fa"),
        "Invalid FASTA file a.fa: no scaffold in progress on line 1."
    );
    assert_eq!(FastaError::EmptyInput.message("a.fa"), "Empty FASTA file a.fa.");
}
