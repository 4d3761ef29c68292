use demultiseq::demux::{DeMultiSeq, RecordError};
use demultiseq::table::UmiTable;
use demultiseq::whitelist::BarcodeSet;

fn chars(s: &str) -> Vec<char> {
    s.chars().collect()
}

fn text(v: &[char]) -> String {
    v.iter().collect()
}

fn whitelist(entries: &[&str]) -> BarcodeSet {
    let v: Vec<Vec<char>> = entries.iter().map(|e| chars(e)).collect();
    BarcodeSet::load(&v)
}

fn rows(d: &DeMultiSeq) -> Vec<(String, String, usize)> {
    let mut r: Vec<(String, String, usize)> = d
        .data
        .report()
        .iter()
        .map(|(b, t, n)| (text(b), text(t), *n))
        .collect();
    r.sort();
    r
}

const CELL: &str = "AAAAAAAAAAAAAAAA";
const TAG: &str = "GGGGGGGG";

#[test]
fn member_resolves_to_itself_at_any_tolerance() {
    let w = whitelist(&["ACGT", "TTTT", "GGGG"]);
    for tol in [0u8, 1, 2, 4, 255] {
        let (found, canon) = w.resolve(&chars("TTTT"), tol);
        assert!(found);
        assert_eq!(text(&canon), "TTTT");
    }
}

#[test]
fn non_member_without_tolerance_is_no_match() {
    let w = whitelist(&["ACGT", "TTTT"]);
    let (found, back) = w.resolve(&chars("ACGA"), 0);
    assert!(!found);
    assert_eq!(text(&back), "ACGA");
}

#[test]
fn resolved_entry_is_within_tolerance() {
    let w = whitelist(&["AAAA", "CCCC", "ACGT"]);
    for cand in ["ACGA", "ACCA", "TTTT", "CCCA", "AAAT"] {
        for tol in [1u8, 2, 3] {
            let (found, canon) = w.resolve(&chars(cand), tol);
            if found {
                assert!(w.hamming_distance(&chars(cand), &canon) <= tol as usize);
                assert!(w.contains(&canon));
            } else {
                assert_eq!(text(&canon), cand);
            }
        }
    }
}

#[test]
fn tolerant_match_picks_first_entry_in_whitelist_order() {
    let w = whitelist(&["ACGA", "ACGC", "ACGG"]);
    let (found, canon) = w.resolve(&chars("ACGT"), 1);
    assert!(found);
    assert_eq!(text(&canon), "ACGA");
    let w = whitelist(&["ACGG", "ACGA"]);
    let (_, canon) = w.resolve(&chars("ACGT"), 1);
    assert_eq!(text(&canon), "ACGG");
}

#[test]
fn tolerant_match_beyond_tolerance_is_no_match() {
    let w = whitelist(&["AAAA"]);
    let (found, back) = w.resolve(&chars("AATT"), 1);
    assert!(!found);
    assert_eq!(text(&back), "AATT");
    let (found, canon) = w.resolve(&chars("AATT"), 2);
    assert!(found);
    assert_eq!(text(&canon), "AAAA");
}

#[test]
fn pdist_scans_even_exact_members() {
    let w = whitelist(&["AAAT", "AAAA"]);
    let (found, canon) = w.pdist(&chars("AAAA"), 1);
    assert!(found);
    assert_eq!(text(&canon), "AAAT");
    let (found, back) = w.pdist(&chars("CCCC"), 1);
    assert!(!found);
    assert_eq!(text(&back), "CCCC");
}

#[test]
fn hamming_distance_values() {
    let w = BarcodeSet::new();
    assert_eq!(w.hamming_distance(&chars("ACGT"), &chars("ACGT")), 0);
    assert_eq!(w.hamming_distance(&chars("ACGT"), &chars("TGCA")), 4);
    assert_eq!(w.hamming_distance(&chars("ACGT"), &chars("ACCT")), 1);
    assert_eq!(w.hamming_distance(&chars(""), &chars("ACGT")), 0);
}

#[test]
fn hamming_distance_compares_up_to_shorter_length() {
    let w = BarcodeSet::new();
    assert_eq!(w.hamming_distance(&chars("ACGTTTTT"), &chars("ACGA")), 1);
    assert_eq!(w.hamming_distance(&chars("AC"), &chars("TCGGGG")), 1);
    let w = whitelist(&["ACGTACGT"]);
    let (found, canon) = w.resolve(&chars("ACGT"), 1);
    assert!(found);
    assert_eq!(text(&canon), "ACGTACGT");
}

#[test]
fn load_keeps_first_occurrence_of_each_entry() {
    let w = whitelist(&["AAAA", "CCCC", "AAAA", "GGGG", "CCCC"]);
    assert_eq!(w.len(), 3);
    assert!(w.contains(&chars("GGGG")));
    assert!(!w.contains(&chars("TTTT")));
    let empty = whitelist(&[]);
    assert_eq!(empty.len(), 0);
    let (found, _) = empty.resolve(&chars("AAAA"), 3);
    assert!(!found);
}

#[test]
fn insert_ignores_an_entry_already_held() {
    let mut w = BarcodeSet::new();
    w.insert(chars("ACGT"));
    w.insert(chars("ACGT"));
    w.insert(chars("TTTT"));
    assert_eq!(w.len(), 2);
}

#[test]
fn record_twice_counts_once() {
    let mut t = UmiTable::new();
    t.record(chars("B"), chars("T"), chars("U"));
    let once = t.count(&chars("B"), &chars("T"));
    t.record(chars("B"), chars("T"), chars("U"));
    assert_eq!(once, 1);
    assert_eq!(t.count(&chars("B"), &chars("T")), 1);
    assert_eq!(t.report().len(), 1);
}

#[test]
fn table_counts_per_pair() {
    let mut t = UmiTable::new();
    assert_eq!(t.count(&chars("B"), &chars("T")), 0);
    t.record(chars("B"), chars("T"), chars("U1"));
    t.record(chars("B"), chars("T"), chars("U2"));
    t.record(chars("B"), chars("S"), chars("U1"));
    t.record(chars("C"), chars("T"), chars("U1"));
    assert_eq!(t.count(&chars("B"), &chars("T")), 2);
    assert_eq!(t.count(&chars("B"), &chars("S")), 1);
    assert_eq!(t.count(&chars("C"), &chars("T")), 1);
    assert_eq!(t.count(&chars("C"), &chars("S")), 0);
    let r = t.report();
    assert_eq!(r.len(), 3);
    assert_eq!((text(&r[0].0), text(&r[0].1), r[0].2), ("B".to_string(), "T".to_string(), 2));
}

#[test]
fn single_pair_gives_one_row() {
    let cells = whitelist(&[CELL]);
    let tags = whitelist(&[TAG]);
    let mut d = DeMultiSeq::new(0, 8);
    let r = d.process(&cells, &tags, &chars("AAAAAAAAAAAAAAAACCCCCCCCCC"), &chars("GGGGGGGG"));
    assert_eq!(r, Ok(()));
    assert_eq!(rows(&d), vec![(CELL.to_string(), TAG.to_string(), 1)]);
}

#[test]
fn two_umis_count_two_and_a_repeated_umi_counts_once() {
    let cells = whitelist(&[CELL]);
    let tags = whitelist(&[TAG]);
    let mut d = DeMultiSeq::new(0, 8);
    d.process(&cells, &tags, &chars("AAAAAAAAAAAAAAAACCCCCCCCCC"), &chars(TAG)).unwrap();
    d.process(&cells, &tags, &chars("AAAAAAAAAAAAAAAATTTTTTTTTT"), &chars(TAG)).unwrap();
    assert_eq!(rows(&d), vec![(CELL.to_string(), TAG.to_string(), 2)]);

    let mut d = DeMultiSeq::new(0, 8);
    d.process(&cells, &tags, &chars("AAAAAAAAAAAAAAAACCCCCCCCCC"), &chars(TAG)).unwrap();
    d.process(&cells, &tags, &chars("AAAAAAAAAAAAAAAACCCCCCCCCC"), &chars(TAG)).unwrap();
    assert_eq!(rows(&d), vec![(CELL.to_string(), TAG.to_string(), 1)]);
}

#[test]
fn near_barcode_is_recorded_under_canonical_entry() {
    let cells = whitelist(&[CELL]);
    let tags = whitelist(&[TAG]);
    let mut d = DeMultiSeq::new(1, 8);
    d.process(&cells, &tags, &chars("AAAAAAAAAAAAAAATCCCCCCCCCC"), &chars("GGGGGGGA")).unwrap();
    assert_eq!(rows(&d), vec![(CELL.to_string(), TAG.to_string(), 1)]);
    assert_eq!(d.data.count(&chars("AAAAAAAAAAAAAAAT"), &chars(TAG)), 0);
}

#[test]
fn near_barcode_without_tolerance_is_dropped() {
    let cells = whitelist(&[CELL]);
    let tags = whitelist(&[TAG]);
    let mut d = DeMultiSeq::new(0, 8);
    let r = d.process(&cells, &tags, &chars("AAAAAAAAAAAAAAATCCCCCCCCCC"), &chars(TAG));
    assert_eq!(r, Ok(()));
    assert!(rows(&d).is_empty());
}

#[test]
fn unmatched_tag_contributes_no_row() {
    let cells = whitelist(&[CELL]);
    let tags = whitelist(&[TAG]);
    let mut d = DeMultiSeq::new(1, 8);
    let r = d.process(&cells, &tags, &chars("AAAAAAAAAAAAAAAACCCCCCCCCC"), &chars("TTTTTTTT"));
    assert_eq!(r, Ok(()));
    assert!(rows(&d).is_empty());
    assert_eq!(d.malformed, 0);
}

#[test]
fn add_record_resolves_both_barcodes() {
    let cells = whitelist(&[CELL]);
    let tags = whitelist(&[TAG, "CCCCCCCC"]);
    let mut d = DeMultiSeq::new(2, 8);
    d.add_record(&cells, &tags, chars("AAAAAAAAAAAAAATT"), chars("UMI"), chars("CCCCCCGG"));
    assert_eq!(rows(&d), vec![(CELL.to_string(), "CCCCCCCC".to_string(), 1)]);
    d.add_record(&cells, &tags, chars("TTTAAAAAAAAAAAAA"), chars("UMI"), chars(TAG));
    assert_eq!(rows(&d).len(), 1);
}

#[test]
fn short_read_one_is_malformed() {
    let cells = whitelist(&[CELL]);
    let tags = whitelist(&[TAG]);
    let mut d = DeMultiSeq::new(0, 8);
    let r = d.process(&cells, &tags, &chars("AAAAAAAAAAAAAAAACCCCCCCCC"), &chars(TAG));
    assert_eq!(r, Err(RecordError::Truncated));
    assert_eq!(d.malformed, 1);
    assert!(rows(&d).is_empty());
}

#[test]
fn short_read_two_is_malformed() {
    let cells = whitelist(&[CELL]);
    let tags = whitelist(&[TAG]);
    let mut d = DeMultiSeq::new(0, 8);
    let r = d.process(&cells, &tags, &chars("AAAAAAAAAAAAAAAACCCCCCCCCC"), &chars("GGGGGGG"));
    assert_eq!(r, Err(RecordError::Truncated));
    d.process(&cells, &tags, &chars(""), &chars("")).unwrap_err();
    assert_eq!(d.malformed, 2);
    d.process(&cells, &tags, &chars("AAAAAAAAAAAAAAAACCCCCCCCCC"), &chars(TAG)).unwrap();
    assert_eq!(d.malformed, 2);
    assert_eq!(rows(&d).len(), 1);
}

#[test]
fn malformed_count_saturates() {
    let cells = whitelist(&[CELL]);
    let tags = whitelist(&[TAG]);
    let mut d = DeMultiSeq::new(0, 8);
    d.malformed = u64::MAX;
    assert!(d.process(&cells, &tags, &chars("A"), &chars(TAG)).is_err());
    assert_eq!(d.malformed, u64::MAX);
}

#[test]
fn parse_r1_splits_barcode_and_umi() {
    let d = DeMultiSeq::new(0, 8);
    let (bc, umi) = d.parse_r1(&chars("ACGTACGTACGTACGTTTTTTGGGGGNNNN")).unwrap();
    assert_eq!(text(&bc), "ACGTACGTACGTACGT");
    assert_eq!(text(&umi), "TTTTTGGGGG");
    assert_eq!(d.parse_r1(&chars("ACGT")), Err(RecordError::Truncated));
}

#[test]
fn parse_r2_uses_configured_width() {
    let d = DeMultiSeq::new(0, 5);
    assert_eq!(text(&d.parse_r2(&chars("ACGTACGT")).unwrap()), "ACGTA");
    assert_eq!(text(&d.parse_r2(&chars("ACGTA")).unwrap()), "ACGTA");
    assert_eq!(d.parse_r2(&chars("ACGT")), Err(RecordError::Truncated));
    let d = DeMultiSeq::new(0, 0);
    assert_eq!(text(&d.parse_r2(&chars("")).unwrap()), "");
}

#[test]
fn char_slice_walks_left_to_right() {
    let d = DeMultiSeq::new(0, 8);
    let s = chars("ABCDEFG");
    let mut pos: usize = 0;
    assert_eq!(text(&d.char_slice(&s, &mut pos, 3).unwrap()), "ABC");
    assert_eq!(pos, 3);
    assert_eq!(text(&d.char_slice(&s, &mut pos, 4).unwrap()), "DEFG");
    assert_eq!(pos, 7);
    assert_eq!(d.char_slice(&s, &mut pos, 1), None);
    assert_eq!(pos, 7);
    assert_eq!(text(&d.char_slice(&s, &mut pos, 0).unwrap()), "");
    let mut far: usize = 9;
    assert_eq!(d.char_slice(&s, &mut far, 0), None);
    assert_eq!(far, 9);
}
