use bio::io::fasta;
use genometk::generate::{
    create_seq, generate_sequences, mutant_record, mutate_reference, mutate_site,
    random_record, reference_sequence, symbol_of, MutationRate, SeqRecord,
};
use genometk::subsample::{
    choose_k_without_replacement, holds_position, is_listed, membership_mask, positions_mask,
    read_lines, subsample_list, subsample_sequences, SampleError,
};
use genometk::tabulate::{calculate_gc, gather_freq, gather_info, gather_length, turn_to_perc};

fn encode(records: &[SeqRecord]) -> Vec<u8> {
    let mut bytes: Vec<u8> = Vec::new();
    {
        let mut writer = fasta::Writer::new(&mut bytes);
        for r in records {
            let rec = fasta::Record::with_attrs(&r.id, None, &r.seq);
            writer.write_record(&rec).unwrap();
        }
        writer.flush().unwrap();
    }
    bytes
}

fn decode(bytes: &[u8]) -> Vec<fasta::Record> {
    fasta::Reader::new(bytes)
        .records()
        .map(|r| r.unwrap())
        .collect()
}

fn max_changes(records: &[fasta::Record]) -> usize {
    let ref_seq = records[0].seq();
    let mut total_changes = 0;
    for record in &records[1..] {
        let mut record_changes = 0;
        for nucl_pos in 0..record.seq().len() {
            if record.seq()[nucl_pos] != ref_seq[nucl_pos] {
                record_changes += 1;
            }
        }
        if record_changes > total_changes {
            total_changes = record_changes;
        }
    }
    total_changes
}

fn is_symbol(b: u8) -> bool {
    b == b'A' || b == b'C' || b == b'T' || b == b'G'
}

fn named(ids: &[&str]) -> Vec<String> {
    ids.iter().map(|s| s.to_string()).collect()
}

#[test]
fn test_generate_for_number_of_sequences() {
    let seqlen: usize = 10;
    let maxseqs: usize = 5;
    let records = generate_sequences(seqlen, maxseqs, None, 1234);
    let read = decode(&encode(&records));
    let mut count = 0;
    let mut len = 0;
    for record in &read {
        count += 1;
        let tmp_len = record.seq().len();
        if tmp_len > len {
            len = tmp_len;
        }
    }
    assert_eq!(count, maxseqs);
    assert_eq!(len, seqlen);
}

#[test]
fn test_generate_no_mut_rate() {
    let records = generate_sequences(10, 100, None, 1234);
    let read = decode(&encode(&records));
    assert!(max_changes(&read) > 1);
}

#[test]
fn test_generate_mut_rate() {
    let rate = MutationRate { hits: 1, out_of: 1_000_000 };
    let records = generate_sequences(10_000, 100, Some(rate), 1234);
    let read = decode(&encode(&records));
    assert!(max_changes(&read) <= 1);
}

#[test]
fn generate_with_high_rate_changes_sites() {
    let rate = MutationRate { hits: 1, out_of: 1 };
    let records = generate_sequences(10, 100, Some(rate), 7);
    let read = decode(&encode(&records));
    assert!(max_changes(&read) > 1);
}

#[test]
fn test_subsample_sequences() {
    let num_sequences = 2;
    let mask = subsample_sequences(3, num_sequences, 0).unwrap();
    assert_eq!(mask.len(), 3);
    let counter = mask.iter().filter(|b| **b).count();
    assert_eq!(counter, num_sequences);
}

#[test]
fn test_subsample_sequences_more_than_max() {
    let num_sequences = 100;
    let result = subsample_sequences(3, num_sequences, 0);
    assert_eq!(
        result,
        Err(SampleError::InvalidSampleSize { requested: 100, available: 3 })
    );
}

#[test]
fn test_subsample_list() {
    let ids = named(&["Seq1", "Seq2", "Seq3"]);
    let list = named(&["Seq1", "Seq3"]);
    let mask = subsample_list(&ids, &list);
    let output_records: Vec<String> = ids
        .iter()
        .zip(mask.iter())
        .filter(|(_, keep)| **keep)
        .map(|(id, _)| id.clone())
        .collect();
    let desired_records: Vec<String> = vec!["Seq1".to_string(), "Seq3".to_string()];
    assert_eq!(output_records, desired_records);
}

#[test]
fn test_gather_freq() {
    let record = fasta::Record::with_attrs("id", None, b"ATTGCN");
    let freq = gather_freq(record.seq());
    assert_eq!(freq, [1, 2, 1, 1, 1]);
}

#[test]
fn test_gather_info() {
    let record = fasta::Record::with_attrs("id", None, b"GGGGGAAAAA");
    let info = gather_info(record.seq());
    println!("{:?}", info);
    assert_eq!(info.0, 10);
    assert_eq!(info.1, 50);
    assert_eq!(info.2, [5, 0, 5, 0, 0]);
    assert_eq!(info.3, [50, 0, 50, 0, 0]);
}

#[test]
fn gather_info_of_empty_sequence_is_zero() {
    let info = gather_info(b"");
    assert_eq!(info, (0, 0, [0; 5], [0; 5]));
}

#[test]
fn gather_info_rounds_down() {
    let info = gather_info(b"GCA");
    assert_eq!(info.0, 3);
    assert_eq!(info.1, 66);
    assert_eq!(info.2, [1, 0, 1, 1, 0]);
    assert_eq!(info.3, [33, 0, 33, 33, 0]);
}

#[test]
fn small_tabulation_helpers() {
    assert_eq!(gather_length(b"ACGTN"), 5);
    assert_eq!(calculate_gc(3, 4), 7);
    assert_eq!(turn_to_perc(1, 3), 33);
    assert_eq!(turn_to_perc(29, 100), 29);
    assert_eq!(turn_to_perc(0, 0), 0);
    assert_eq!(turn_to_perc(7, 7), 100);
    assert_eq!(turn_to_perc(3, 2), 150);
}

#[test]
fn symbols_in_draw_order() {
    assert_eq!(symbol_of(0), b'A');
    assert_eq!(symbol_of(1), b'C');
    assert_eq!(symbol_of(2), b'T');
    assert_eq!(symbol_of(3), b'G');
}

#[test]
fn created_sequence_has_length_and_alphabet() {
    let mut rng = fastrand::Rng::with_seed(3);
    for len in [0usize, 1, 17, 1000] {
        let s = create_seq(len, &mut rng);
        assert_eq!(s.len(), len);
        assert!(s.iter().all(|b| is_symbol(*b)));
    }
}

#[test]
fn mutate_site_redraws_only_below_rate() {
    let rate = MutationRate { hits: 3, out_of: 10 };
    assert_eq!(mutate_site(b'A', 2, 3, rate), b'G');
    assert_eq!(mutate_site(b'A', 3, 3, rate), b'A');
    assert_eq!(mutate_site(b'C', 0, 1, rate), b'C');
}

#[test]
fn mutation_at_rate_zero_keeps_reference() {
    let mut rng = fastrand::Rng::with_seed(5);
    let refseq = create_seq(500, &mut rng);
    let rate = MutationRate { hits: 0, out_of: 10 };
    let m = mutate_reference(&refseq, rate, &mut rng);
    assert_eq!(m, refseq);
}

#[test]
fn mutation_at_rate_one_redraws_everything() {
    let mut rng = fastrand::Rng::with_seed(5);
    let refseq = vec![b'N'; 200];
    let rate = MutationRate { hits: 4, out_of: 4 };
    let m = mutate_reference(&refseq, rate, &mut rng);
    assert_eq!(m.len(), 200);
    assert!(m.iter().all(|b| is_symbol(*b)));
}

#[test]
fn mutant_keeps_or_redraws_each_site() {
    let refseq = vec![b'N'; 300];
    let rate = MutationRate { hits: 1, out_of: 2 };
    let rec = mutant_record(&refseq, rate, 11, 4);
    assert_eq!(rec.id, "seq4");
    assert_eq!(rec.seq.len(), 300);
    assert!(rec.seq.iter().all(|b| *b == b'N' || is_symbol(*b)));
    assert!(rec.seq.iter().any(|b| *b != b'N'));
    assert!(rec.seq.iter().any(|b| *b == b'N'));
}

#[test]
fn generated_records_are_named_in_order() {
    let records = generate_sequences(8, 12, None, 99);
    assert_eq!(records.len(), 12);
    for (i, r) in records.iter().enumerate() {
        assert_eq!(r.id, format!("seq{}", i));
        assert_eq!(r.seq.len(), 8);
        assert!(r.seq.iter().all(|b| is_symbol(*b)));
    }
    assert_eq!(records[10].id, "seq10");
}

#[test]
fn generated_mutants_follow_the_reference() {
    let rate = MutationRate { hits: 0, out_of: 1 };
    let records = generate_sequences(20, 4, Some(rate), 99);
    assert_eq!(records.len(), 4);
    assert_eq!(records[0].id, "Refseq");
    assert_eq!(records[0].seq, reference_sequence(20, 99));
    for (i, r) in records.iter().enumerate().skip(1) {
        assert_eq!(r.id, format!("seq{}", i - 1));
        assert_eq!(r.seq, records[0].seq);
    }
}

#[test]
fn generate_edge_counts() {
    assert!(generate_sequences(5, 0, None, 1).is_empty());
    let rate = MutationRate { hits: 1, out_of: 2 };
    let only_ref = generate_sequences(5, 0, Some(rate), 1);
    assert_eq!(only_ref.len(), 1);
    assert_eq!(only_ref[0].id, "Refseq");
    let empty_seqs = generate_sequences(0, 3, None, 1);
    assert!(empty_seqs.iter().all(|r| r.seq.is_empty()));
}

#[test]
fn generation_is_reproducible_per_seed() {
    let a = generate_sequences(30, 6, None, 42);
    let b = generate_sequences(30, 6, None, 42);
    for (x, y) in a.iter().zip(b.iter()) {
        assert_eq!(x.seq, y.seq);
    }
    let r = random_record(30, 42, 3);
    assert_eq!(r.seq, a[3].seq);
}

#[test]
fn chosen_positions_are_distinct_and_in_range() {
    let mut rng = fastrand::Rng::with_seed(8);
    for (total, k) in [(10usize, 0usize), (10, 3), (10, 10), (1, 1), (1000, 999)] {
        let v = choose_k_without_replacement(total, k, &mut rng).unwrap();
        assert_eq!(v.len(), k);
        assert!(v.iter().all(|p| *p < total));
        let mut sorted = v.clone();
        sorted.sort();
        sorted.dedup();
        assert_eq!(sorted.len(), k);
    }
}

#[test]
fn choosing_more_than_range_fails() {
    let mut rng = fastrand::Rng::with_seed(8);
    assert_eq!(
        choose_k_without_replacement(4, 5, &mut rng),
        Err(SampleError::InvalidSampleSize { requested: 5, available: 4 })
    );
    assert!(choose_k_without_replacement(0, 1, &mut rng).is_err());
}

#[test]
fn sample_of_everything_keeps_everything() {
    let mask = subsample_sequences(6, 6, 3).unwrap();
    assert_eq!(mask, vec![true; 6]);
    let none = subsample_sequences(6, 0, 3).unwrap();
    assert_eq!(none, vec![false; 6]);
    let empty = subsample_sequences(0, 0, 3).unwrap();
    assert!(empty.is_empty());
}

#[test]
fn sample_is_reproducible_per_seed() {
    assert_eq!(subsample_sequences(50, 7, 0), subsample_sequences(50, 7, 0));
}

#[test]
fn mask_marks_chosen_positions() {
    let chosen = vec![4usize, 0, 2];
    assert_eq!(positions_mask(6, &chosen), vec![true, false, true, false, true, false]);
    assert!(holds_position(&chosen, 2));
    assert!(!holds_position(&chosen, 3));
}

#[test]
fn list_lines_are_trimmed() {
    let lines = named(&["  Seq1 ", "\tSeq3\r", "Seq9"]);
    assert_eq!(read_lines(&lines), named(&["Seq1", "Seq3", "Seq9"]));
    let ids = named(&["Seq1", "Seq2", "Seq3", "Seq1"]);
    assert_eq!(subsample_list(&ids, &lines), vec![true, false, true, true]);
}

#[test]
fn membership_follows_collection_order() {
    let ids = named(&["b", "a", "c"]);
    let wanted = named(&["c", "b", "zz"]);
    assert_eq!(membership_mask(&ids, &wanted), vec![true, false, true]);
    assert!(is_listed(&wanted, &"zz".to_string()));
    assert!(!is_listed(&wanted, &"a".to_string()));
    assert!(membership_mask(&ids, &Vec::new()).iter().all(|k| !*k));
}

#[test]
fn codec_round_trip_keeps_records() {
    let records = vec![
        SeqRecord { id: "first".to_string(), seq: b"ACGTN".to_vec() },
        SeqRecord { id: "second".to_string(), seq: Vec::new() },
        SeqRecord { id: "third".to_string(), seq: vec![b'G'; 250] },
    ];
    let read = decode(&encode(&records));
    assert_eq!(read.len(), records.len());
    for (r, w) in read.iter().zip(records.iter()) {
        assert_eq!(r.id(), w.id);
        assert_eq!(r.seq(), &w.seq[..]);
    }
}
