use dna_formats::data::{Annotation, Feature, Phase, Strand};
use dna_formats::gff::{parse_gff, parse_gff_line, GffError, RecordError};

fn lines(text: &[&str]) -> Vec<String> {
    text.iter().map(|l| String::from(*l)).collect()
}

const FOURTH: &str =
    "scaffold_4\tJGI\tstop_codon\t2184\t2186\t.\t+\t0\tname \"fgenesh1_kg.1_#_1_#_Locus4417v1rpkm26.65\"";

#[test]
fn test_load_valid_gff() {
    let input = lines(&[
        "scaffold_1\tJGI\texon\t1\t100\t.\t-\t.\tname \"a\"",
        "scaffold_2\tJGI\tCDS\t10\t99\t5\t+\t2\tname \"b\"",
        "scaffold_3\tJGI\tstart_codon\t7\t9\t.\t+\t0\tname \"c\"",
        FOURTH,
    ]);
    let mut annotations = parse_gff(&input).unwrap();
    assert_eq!(annotations.len(), 4);

    let four = annotations.pop().unwrap();
    let three = annotations.pop().unwrap();
    let two = annotations.pop().unwrap();
    let one = annotations.pop().unwrap();

    assert_eq!(one.scaffold(), "scaffold_1");
    assert_eq!(one.feature(), Feature::Exon);

    assert_eq!(two.scaffold(), "scaffold_2");
    assert_eq!(two.feature(), Feature::CDS);

    assert_eq!(three.scaffold(), "scaffold_3");
    assert_eq!(three.feature(), Feature::StartCodon);

    assert_eq!(four.scaffold(), "scaffold_4");
    assert_eq!(four.source(), "JGI");
    assert_eq!(four.feature(), Feature::StopCodon);
    assert_eq!(four.start(), 2183);
    assert_eq!(four.end(), 2186);
    assert_eq!(four.score(), None);
    assert_eq!(four.strand(), Strand::Positive);
    assert_eq!(four.phase(), Some(Phase::Zero));

    assert_eq!(
        four.attributes(),
        "name \"fgenesh1_kg.1_#_1_#_Locus4417v1rpkm26.65\""
    );
}

#[test]
fn test_load_invalid_gff() {
    let input = lines(&[
        "scaffold_1\tJGI\texon\t1\t100\t.\t-\t.\tname \"a\"",
        "scaffold_2\tJGI\tXXX\t10\t99\t.\t+\t2\tname \"b\"",
        FOURTH,
    ]);
    let error = match parse_gff(&input) {
        Ok(_) => panic!("Loading did not fail."),
        Err(error) => error,
    };
    assert_eq!(error.line, 2);
    assert_eq!(
        error.cause,
        RecordError::UnrecognizedFeature(String::from("XXX"))
    );

    assert_eq!(
        error.message("./tests/invalid.gff"),
        String::from("Failed to parse line 2 of file ./tests/invalid.gff.")
    );

    assert_eq!(
        error.root_cause(),
        String::from("Unrecognized feature: XXX")
    );
}

#[test]
fn record_error_messages() {
    assert_eq!(
        RecordError::ColumnCount { expected: 9, actual: 10 }.message(),
        "Wrong number of tab separated columns. Expected 9 got 10."
    );
    assert_eq!(
        RecordError::StartNotBeforeEnd { start: 2183, end: 0 }.message(),
        "Feature start index is greater or equal to end index. 2183 >= 0"
    );
    assert_eq!(
        RecordError::ZeroStart.message(),
        "Feature start position is 0 but must be bigger or equal to 1."
    );
    assert_eq!(
        RecordError::InvalidStrand(String::from("*")).message(),
        "Invalid strand, only +, - are valid. Got: *"
    );
    let e = GffError { line: 1207, cause: RecordError::InvalidEnd(String::from("x")) };
    assert_eq!(e.message("f.gff"), "Failed to parse line 1207 of file f.gff.");
    assert_eq!(e.root_cause(), "Feature end has to be a positive integer. Got: x");
}

#[test]
fn wire_record_converts_coordinates() {
    let a: Annotation =
        parse_gff_line(&String::from("scaffold_1\tJGI\tstop_codon\t2184\t2186\t.\t+\t0\tattrs"))
            .unwrap();
    assert_eq!(a.scaffold(), "scaffold_1");
    assert_eq!(a.source(), "JGI");
    assert_eq!(a.start(), 2183);
    assert_eq!(a.end(), 2186);
    assert_eq!(a.score(), None);
    assert_eq!(a.strand(), Strand::Positive);
    assert_eq!(a.phase(), Some(Phase::Zero));
    assert_eq!(a.feature(), Feature::StopCodon);
    assert_eq!(a.attributes(), "attrs");
}

#[test]
fn unrecognized_feature_names_line() {
    let input = lines(&[
        "s\tJGI\tCDS\t1\t3\t.\t+\t0\ta",
        "s\tJGI\tCDS\t4\t6\t.\t+\t0\ta",
        "s\tJGI\tXXX\t1\t3\t.\t+\t0\ta",
    ]);
    assert_eq!(
        parse_gff(&input).err(),
        Some(GffError {
            line: 3,
            cause: RecordError::UnrecognizedFeature(String::from("XXX"))
        })
    );
}

#[test]
fn zero_start_is_rejected_before_order_check() {
    let r = parse_gff_line(&String::from("s\tJGI\texon\t0\t0\t.\t+\t0\ta"));
    assert_eq!(r.err(), Some(RecordError::ZeroStart));
    let r = parse_gff_line(&String::from("s\tJGI\texon\t0\t5\t.\t+\t0\ta"));
    assert_eq!(r.err(), Some(RecordError::ZeroStart));
}

#[test]
fn start_not_before_end_is_rejected() {
    let r = parse_gff_line(&String::from("s\tJGI\texon\t6\t5\t.\t+\t0\ta"));
    assert_eq!(
        r.err(),
        Some(RecordError::StartNotBeforeEnd { start: 5, end: 5 })
    );
    let a = parse_gff_line(&String::from("s\tJGI\texon\t5\t5\t.\t+\t0\ta")).unwrap();
    assert_eq!((a.start(), a.end()), (4, 5));
}

#[test]
fn other_phase_tokens_mean_no_phase() {
    for token in [".", "3", "x", "", "00"] {
        let line = format!("s\tJGI\tCDS\t1\t3\t.\t-\t{}\ta", token);
        let a = parse_gff_line(&line).unwrap();
        assert_eq!(a.phase(), None);
    }
    let a = parse_gff_line(&String::from("s\tJGI\tCDS\t1\t3\t.\t-\t1\ta")).unwrap();
    assert_eq!(a.phase(), Some(Phase::One));
    let a = parse_gff_line(&String::from("s\tJGI\tCDS\t1\t3\t.\t-\t2\ta")).unwrap();
    assert_eq!(a.phase(), Some(Phase::Two));
}

#[test]
fn wrong_column_count_is_rejected() {
    let r = parse_gff_line(&String::from("s\tJGI\tCDS\t1\t3\t.\t-\t1"));
    assert_eq!(
        r.err(),
        Some(RecordError::ColumnCount { expected: 9, actual: 8 })
    );
    let r = parse_gff_line(&String::from("s\tJGI\tCDS\t1\t3\t.\t-\t1\ta\tb"));
    assert_eq!(
        r.err(),
        Some(RecordError::ColumnCount { expected: 9, actual: 10 })
    );
    let r = parse_gff_line(&String::new());
    assert_eq!(
        r.err(),
        Some(RecordError::ColumnCount { expected: 9, actual: 1 })
    );
}

#[test]
fn invalid_tokens_are_reported() {
    let r = parse_gff_line(&String::from("s\tJGI\tCDS\t1\t3\t.\t*\t1\ta"));
    assert_eq!(r.err(), Some(RecordError::InvalidStrand(String::from("*"))));
    let r = parse_gff_line(&String::from("s\tJGI\tCDS\t1\t3\t-4\t+\t1\ta"));
    assert_eq!(r.err(), Some(RecordError::InvalidScore(String::from("-4"))));
    let r = parse_gff_line(&String::from("s\tJGI\tCDS\t1\t3\t4294967296\t+\t1\ta"));
    assert_eq!(
        r.err(),
        Some(RecordError::InvalidScore(String::from("4294967296")))
    );
    let r = parse_gff_line(&String::from("s\tJGI\tCDS\t1\tx3\t.\t+\t1\ta"));
    assert_eq!(r.err(), Some(RecordError::InvalidEnd(String::from("x3"))));
    let r = parse_gff_line(&String::from("s\tJGI\tCDS\t\t3\t.\t+\t1\ta"));
    assert_eq!(r.err(), Some(RecordError::InvalidStart(String::new())));
}

#[test]
fn scores_parse_as_decimal() {
    let a = parse_gff_line(&String::from("s\tJGI\tCDS\t1\t3\t4294967295\t+\t1\ta")).unwrap();
    assert_eq!(a.score(), Some(4294967295));
    let a = parse_gff_line(&String::from("s\tJGI\tCDS\t+12\t30\t+7\t+\t1\ta\n")).unwrap();
    assert_eq!(a.score(), Some(7));
    assert_eq!(a.start(), 11);
    assert_eq!(a.attributes(), "a");
}

#[test]
fn empty_annotation_stream_is_accepted() {
    assert_eq!(parse_gff(&Vec::new()).unwrap().len(), 0);
}

#[test]
fn annotation_new_keeps_fields() {
    let a = Annotation::new(
        String::from("s"),
        String::from("src"),
        Feature::Exon,
        Some(3),
        Strand::Negative,
        None,
        2,
        5,
        String::from("x"),
    );
    assert_eq!(a.source(), "src");
    assert_eq!(a.score(), Some(3));
    assert_eq!(a.strand(), Strand::Negative);
    assert_eq!((a.start(), a.end()), (2, 5));
}
