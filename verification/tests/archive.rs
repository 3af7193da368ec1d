use influxc::backlogging::archive::Append;
use influxc::backlogging::archive::Archive;
use influxc::backlogging::naming::ArchiveMeta;
use influxc::backlogging::archive::ArchiveState;
use influxc::backlogging::file::DirEntry;
use influxc::backlogging::file::DirScan;
use influxc::backlogging::framing::fits_one_line;
use influxc::backlogging::framing::frame_lines;
use influxc::backlogging::framing::read_lines;
use influxc::Backlog;
use influxc::FileBacklog;
use influxc::InfluxError;
use influxc::InfluxResult;
use influxc::Measurement;
use influxc::NoopBacklog;
use influxc::Precision;
use influxc::Record;
use influxc::Value;

fn record(org: &str, bucket: &str, precision: Precision, names: &[&str]) -> Record {
    let mut rec = Record::new(org, bucket).precision(precision);
    for name in names {
        rec.measurement(name).field("v", Value::Integer(1));
    }
    rec
}

fn entries(names: &[&str]) -> Vec<String> {
    names.iter().map(|n| format!("{{\"name\":\"{}\"}}", n)).collect()
}

fn decoded(names: &[&str]) -> Vec<InfluxResult<Measurement>> {
    names.iter().map(|n| Ok(Measurement::new(n).add_field("v", Value::Integer(1)))).collect()
}

fn listing(files: &[(&str, usize)]) -> DirScan {
    DirScan::Entries(files.iter().map(|(n, l)| DirEntry { name: n.to_string(), lines: *l }).collect())
}

#[test]
fn archive_file_is_named_after_the_destination() {
    let meta = ArchiveMeta::from_record(&record("org", "bucket", Precision::Milliseconds, &[]));
    assert_eq!(meta.to_path(), "org_bucket_ms.log");
    let odd = ArchiveMeta { org: "".to_string(), bucket: "b.c".to_string(), precision: Precision::Hours };
    assert_eq!(odd.to_path(), "_b.c_h.log");
}

#[test]
fn destination_is_read_back_from_the_name() {
    for p in [
        Precision::Nanoseconds,
        Precision::Microseconds,
        Precision::Milliseconds,
        Precision::Seconds,
        Precision::Minutes,
        Precision::Hours,
    ] {
        let meta = ArchiveMeta { org: "my.org".to_string(), bucket: "b".to_string(), precision: p };
        assert_eq!(ArchiveMeta::from_path(&meta.to_path()), Ok(meta));
    }
}

#[test]
fn name_without_extension_or_with_more_parts_is_read() {
    let expected = ArchiveMeta { org: "a".to_string(), bucket: "b".to_string(), precision: Precision::Seconds };
    assert_eq!(ArchiveMeta::from_path("a_b_s"), Ok(expected));
    let expected = ArchiveMeta { org: "a".to_string(), bucket: "b".to_string(), precision: Precision::Seconds };
    assert_eq!(ArchiveMeta::from_path("a_b_s_more.log"), Ok(expected));
    let expected = ArchiveMeta { org: "".to_string(), bucket: "".to_string(), precision: Precision::Seconds };
    assert_eq!(ArchiveMeta::from_path("__s.txt"), Ok(expected));
    let expected = ArchiveMeta { org: ".a".to_string(), bucket: "b".to_string(), precision: Precision::Seconds };
    assert_eq!(ArchiveMeta::from_path(".a_b_s"), Ok(expected));
}

#[test]
fn name_with_fewer_than_three_parts_is_refused() {
    for name in ["", "a", "a_b.log", "notes.txt", ".log"] {
        assert_eq!(
            ArchiveMeta::from_path(name),
            Err(InfluxError::Error(format!("Could not determine name from path: {}", name)))
        );
    }
}

#[test]
fn name_with_unknown_precision_is_refused() {
    assert_eq!(
        ArchiveMeta::from_path("a_b_c.log"),
        Err(InfluxError::Error("Invalid precision: c".to_string()))
    );
    assert_eq!(
        ArchiveMeta::from_path("a_b_ns.old.log"),
        Err(InfluxError::Error("Invalid precision: ns.old".to_string()))
    );
}

#[test]
fn frame_closes_every_entry_with_a_line_feed() {
    assert_eq!(frame_lines(&vec!["a".to_string(), "bc".to_string()]), "a\nbc\n");
    assert_eq!(frame_lines(&Vec::new()), "");
    assert_eq!(frame_lines(&vec!["".to_string()]), "\n");
}

#[test]
fn read_lines_agrees_with_std() {
    for content in [
        "", "a", "a\n", "a\nb", "a\n\nb\n", "\n", "\n\n", "a\r\nb\r\n", "a\r", "\r\n", "a\rb\n", "\r", "a\n\r",
        "a\r\r\n", "é\r\nü",
    ] {
        let expected: Vec<String> =
            std::io::BufRead::lines(std::io::Cursor::new(content)).map(|l| l.unwrap()).collect();
        assert_eq!(read_lines(content), expected, "{:?}", content);
    }
}

#[test]
fn read_lines_strips_a_carriage_return_before_a_line_feed() {
    assert_eq!(read_lines("a\r\nb\n"), vec!["a", "b"]);
    assert_eq!(read_lines("a\r"), vec!["a\r"]);
    assert_eq!(read_lines("a\nb"), vec!["a", "b"]);
}

#[test]
fn entries_come_back_from_their_frame() {
    let lines = vec!["{\"a\":1}".to_string(), "".to_string(), "x y".to_string()];
    assert_eq!(read_lines(&frame_lines(&lines)), lines);
}

#[test]
fn entries_written_later_come_back_behind_the_earlier() {
    let first = vec!["one".to_string(), "two".to_string()];
    let second = vec!["three".to_string()];
    let disk = format!("{}{}", frame_lines(&first), frame_lines(&second));
    assert_eq!(read_lines(&disk), vec!["one", "two", "three"]);
}

#[test]
fn only_single_lines_fit() {
    assert!(fits_one_line("{\"a\":\"b\"}"));
    assert!(fits_one_line(""));
    assert!(!fits_one_line("a\nb"));
    assert!(!fits_one_line("a\n"));
    assert!(!fits_one_line("a\r"));
    assert!(fits_one_line("a\rb"));
}

#[test]
fn archive_opens_with_the_lines_found() {
    let a = Archive::open("o_b_ns.log", 3).unwrap();
    assert_eq!(a.path, "o_b_ns.log");
    assert_eq!(a.count, 3);
    assert_eq!(a.state, ArchiveState::Unopened);
    assert_eq!(a.meta, ArchiveMeta { org: "o".to_string(), bucket: "b".to_string(), precision: Precision::Nanoseconds });
    assert_eq!(
        Archive::open("readme.md", 3),
        Err(InfluxError::Error("Could not determine name from path: readme.md".to_string()))
    );
}

#[test]
fn archive_moves_between_its_states() {
    let mut a = Archive::open("o_b_ns.log", 0).unwrap();
    assert_eq!(a.prepare_handle(), true);
    assert_eq!(a.state, ArchiveState::Open);
    assert_eq!(a.prepare_handle(), false);
    let plan = a.append(&entries(&["m"])).unwrap();
    assert_eq!(plan.open_file, false);
    assert_eq!(a.truncate(), true);
    assert_eq!(a.state, ArchiveState::Removed);
    assert_eq!(a.count, 0);
    let plan = a.append(&entries(&["m"])).unwrap();
    assert_eq!(plan.open_file, true);
    assert_eq!(a.state, ArchiveState::Open);
    assert_eq!(a.count, 1);
}

#[test]
fn archive_append_counts_and_frames() {
    let mut a = Archive::open("o_b_ns.log", 2).unwrap();
    let plan = a.append(&entries(&["x", "y"])).unwrap();
    assert_eq!(
        plan,
        Append {
            path: "o_b_ns.log".to_string(),
            open_file: true,
            block: "{\"name\":\"x\"}\n{\"name\":\"y\"}\n".to_string()
        }
    );
    assert_eq!(a.count, 4);
}

#[test]
fn archive_append_refuses_broken_lines_and_overflow() {
    let mut a = Archive::open("o_b_ns.log", 2).unwrap();
    assert_eq!(
        a.append(&vec!["fine".to_string(), "two\nlines".to_string()]),
        Err(InfluxError::Encoding("entry does not fit on one line".to_string()))
    );
    assert_eq!(a.count, 2);
    assert_eq!(a.state, ArchiveState::Unopened);
    let mut full = Archive::open("o_b_ns.log", usize::MAX).unwrap();
    assert_eq!(
        full.append(&entries(&["x"])),
        Err(InfluxError::Error("too many entries in archive".to_string()))
    );
    assert_eq!(full.count, usize::MAX);
}

#[test]
fn truncating_an_empty_archive_changes_nothing() {
    let mut a = Archive::open("o_b_ns.log", 0).unwrap();
    assert_eq!(a.truncate(), false);
    assert_eq!(a.state, ArchiveState::Unopened);
    assert_eq!(a.count, 0);
}

#[test]
fn archive_record_holds_the_decoded_lines_in_order() {
    let mut a = Archive::open("o_b_ms.log", 2).unwrap();
    let rec = a.record(decoded(&["first", "second"])).unwrap().unwrap();
    assert_eq!(rec.org, "o");
    assert_eq!(rec.bucket, "b");
    assert_eq!(rec.precision, Precision::Milliseconds);
    let names: Vec<&str> = rec.measurements.iter().map(|m| m.name.as_str()).collect();
    assert_eq!(names, vec!["first", "second"]);
    assert_eq!(a.state, ArchiveState::Open);
    assert_eq!(a.count, 2);
}

#[test]
fn archive_record_of_an_empty_archive_is_none() {
    let mut a = Archive::open("o_b_ms.log", 0).unwrap();
    assert_eq!(a.record(decoded(&["ignored"])), Ok(None));
    assert_eq!(a.state, ArchiveState::Unopened);
}

#[test]
fn archive_record_fails_on_the_first_bad_line() {
    let mut a = Archive::open("o_b_ms.log", 3).unwrap();
    let lines = vec![
        Ok(Measurement::new("good")),
        Err(InfluxError::Json("line 2".to_string())),
        Err(InfluxError::Json("line 3".to_string())),
    ];
    assert_eq!(a.record(lines), Err(InfluxError::Json("line 2".to_string())));
}

#[test]
fn backlog_refuses_what_is_no_directory() {
    assert_eq!(
        FileBacklog::new("./nowhere", DirScan::NotADirectory),
        Err(InfluxError::Error("Backlog dir is not a directory: ./nowhere".to_string()))
    );
}

#[test]
fn backlog_refuses_a_directory_with_a_stranger() {
    let scan = listing(&[("o_b_ns.log", 1), ("readme", 4), ("x_y_zz.log", 4)]);
    assert_eq!(
        FileBacklog::new("dir", scan),
        Err(InfluxError::Error("Could not determine name from path: readme".to_string()))
    );
    let scan = listing(&[("o_b_ns.log", 1), ("x_y_zz.log", 4), ("readme", 4)]);
    assert_eq!(
        FileBacklog::new("dir", scan),
        Err(InfluxError::Error("Invalid precision: zz".to_string()))
    );
}

#[test]
fn backlog_lists_the_files_with_entries() {
    let scan = listing(&[("o_b_ns.log", 2), ("o_c_ns.log", 0), ("p_b_s.log", 1)]);
    let backlog = FileBacklog::new("dir", scan).unwrap();
    assert_eq!(backlog.dir(), "dir");
    assert_eq!(backlog.pending_paths(), vec!["o_b_ns.log", "p_b_s.log"]);
    let empty = FileBacklog::new("dir", listing(&[])).unwrap();
    assert_eq!(empty.pending_paths().len(), 0);
}

#[test]
fn backlog_keeps_the_last_entry_of_a_name() {
    let scan = listing(&[("o_b_ns.log", 2), ("p_b_s.log", 1), ("o_b_ns.log", 0)]);
    let backlog = FileBacklog::new("dir", scan).unwrap();
    assert_eq!(backlog.pending_paths(), vec!["p_b_s.log"]);
}

#[test]
fn write_pending_names_the_file_and_the_block() {
    let mut backlog = FileBacklog::new("dir", listing(&[])).unwrap();
    let rec = record("o", "b", Precision::Seconds, &["m1", "m2"]);
    let plan = backlog.write_pending(&rec, &entries(&["m1", "m2"])).unwrap();
    assert_eq!(plan.path, "o_b_s.log");
    assert_eq!(plan.open_file, true);
    assert_eq!(plan.block, "{\"name\":\"m1\"}\n{\"name\":\"m2\"}\n");
    assert_eq!(backlog.pending_paths(), vec!["o_b_s.log"]);
    let plan = backlog.write_pending(&rec, &entries(&["m1", "m2"])).unwrap();
    assert_eq!(plan.open_file, false);
}

#[test]
fn write_pending_refuses_entries_that_do_not_match() {
    let mut backlog = FileBacklog::new("dir", listing(&[])).unwrap();
    let rec = record("o", "b", Precision::Seconds, &["m1", "m2"]);
    assert_eq!(
        backlog.write_pending(&rec, &entries(&["m1"])),
        Err(InfluxError::Error("entries do not match the measurements".to_string()))
    );
    assert_eq!(
        backlog.write_pending(&rec, &vec!["a".to_string(), "b\nc".to_string()]),
        Err(InfluxError::Encoding("entry does not fit on one line".to_string()))
    );
    assert_eq!(backlog.pending_paths().len(), 0);
}

#[test]
fn write_pending_refuses_a_destination_that_no_name_leads_back_to() {
    let mut backlog = FileBacklog::new("dir", listing(&[])).unwrap();
    let rec = record("a_b", "c", Precision::Seconds, &["m"]);
    assert_eq!(
        backlog.write_pending(&rec, &entries(&["m"])),
        Err(InfluxError::Error("Invalid precision: c".to_string()))
    );
}

#[test]
fn spilled_measurements_are_read_after_a_restart() {
    let mut backlog = FileBacklog::new("dir", listing(&[])).unwrap();
    let rec = record("o", "b", Precision::Seconds, &["m1", "m2"]);
    let plan = backlog.write_pending(&rec, &entries(&["m1", "m2"])).unwrap();
    // what is on disk once the block is written
    let disk = plan.block.clone();
    let lines = read_lines(&disk);
    assert_eq!(lines, entries(&["m1", "m2"]));
    // a new process finds the file with its lines
    let mut reopened = FileBacklog::new("dir", listing(&[(plan.path.as_str(), lines.len())])).unwrap();
    assert_eq!(reopened.pending_paths(), vec!["o_b_s.log"]);
    let records = reopened.read_pending(vec![decoded(&["m1", "m2"])]).unwrap();
    assert_eq!(records.len(), 1);
    assert_eq!(records[0].org, "o");
    assert_eq!(records[0].bucket, "b");
    assert_eq!(records[0].precision, Precision::Seconds);
    let names: Vec<&str> = records[0].measurements.iter().map(|m| m.name.as_str()).collect();
    assert_eq!(names, vec!["m1", "m2"]);
}

#[test]
fn read_pending_gives_one_record_for_each_file_with_entries() {
    let scan = listing(&[("o_b_ns.log", 2), ("o_c_ns.log", 0), ("p_b_s.log", 1)]);
    let mut backlog = FileBacklog::new("dir", scan).unwrap();
    let records = backlog.read_pending(vec![decoded(&["a", "b"]), decoded(&["c"])]).unwrap();
    assert_eq!(records.len(), 2);
    assert_eq!((records[0].org.as_str(), records[0].bucket.as_str()), ("o", "b"));
    assert_eq!(records[0].precision, Precision::Nanoseconds);
    assert_eq!(records[0].measurements.len(), 2);
    assert_eq!((records[1].org.as_str(), records[1].bucket.as_str()), ("p", "b"));
    assert_eq!(records[1].precision, Precision::Seconds);
    assert_eq!(records[1].measurements[0].name, "c");
    assert_eq!(backlog.pending_paths(), vec!["o_b_ns.log", "p_b_s.log"]);
}

#[test]
fn read_pending_refuses_contents_for_other_files() {
    let scan = listing(&[("o_b_ns.log", 2), ("p_b_s.log", 1)]);
    let mut backlog = FileBacklog::new("dir", scan).unwrap();
    assert_eq!(
        backlog.read_pending(vec![decoded(&["a"])]),
        Err(InfluxError::Error("files read do not match the files pending".to_string()))
    );
}

#[test]
fn read_pending_fails_on_a_damaged_line() {
    let scan = listing(&[("o_b_ns.log", 2), ("p_b_s.log", 2)]);
    let mut backlog = FileBacklog::new("dir", scan).unwrap();
    let damaged = vec![
        decoded(&["a", "b"]),
        vec![Err(InfluxError::Json("first".to_string())), Err(InfluxError::Json("second".to_string()))],
    ];
    assert_eq!(backlog.read_pending(damaged), Err(InfluxError::Json("first".to_string())));
    assert_eq!(backlog.pending_paths(), vec!["o_b_ns.log", "p_b_s.log"]);
}

#[test]
fn different_destinations_spill_into_different_files() {
    let mut backlog = FileBacklog::new("dir", listing(&[])).unwrap();
    let a = record("o", "b", Precision::Seconds, &["m"]);
    let b = record("o", "b", Precision::Milliseconds, &["m"]);
    let c = record("o", "c", Precision::Seconds, &["m", "n"]);
    let pa = backlog.write_pending(&a, &entries(&["m"])).unwrap();
    let pb = backlog.write_pending(&b, &entries(&["m"])).unwrap();
    let pc = backlog.write_pending(&c, &entries(&["m", "n"])).unwrap();
    assert_eq!(pa.path, "o_b_s.log");
    assert_eq!(pb.path, "o_b_ms.log");
    assert_eq!(pc.path, "o_c_s.log");
    assert_eq!(backlog.truncate_pending(&a), Some("o_b_s.log".to_string()));
    assert_eq!(backlog.pending_paths(), vec!["o_b_ms.log", "o_c_s.log"]);
    let records = backlog.read_pending(vec![decoded(&["m"]), decoded(&["m", "n"])]).unwrap();
    assert_eq!(records[1].measurements.len(), 2);
}

#[test]
fn truncating_what_does_not_wait_is_a_no_op() {
    let mut backlog = FileBacklog::new("dir", listing(&[("o_b_s.log", 0), ("o_c_s.log", 3)])).unwrap();
    let before = FileBacklog::new("dir", listing(&[("o_b_s.log", 0), ("o_c_s.log", 3)])).unwrap();
    assert_eq!(backlog.truncate_pending(&record("o", "b", Precision::Seconds, &[])), None);
    assert_eq!(backlog.truncate_pending(&record("new", "one", Precision::Seconds, &[])), None);
    assert_eq!(backlog, before);
    assert_eq!(backlog.pending_paths(), vec!["o_c_s.log"]);
}

#[test]
fn truncating_twice_removes_once() {
    let mut backlog = FileBacklog::new("dir", listing(&[("o_c_s.log", 3)])).unwrap();
    let rec = record("o", "c", Precision::Seconds, &[]);
    assert_eq!(backlog.truncate_pending(&rec), Some("o_c_s.log".to_string()));
    assert_eq!(backlog.truncate_pending(&rec), None);
    assert_eq!(backlog.pending_paths().len(), 0);
}

#[test]
fn noop_backlog_keeps_nothing() {
    let mut backlog = NoopBacklog;
    let rec = record("o", "b", Precision::Seconds, &["m"]);
    assert_eq!(backlog.write_pending(&rec), Ok(()));
    assert_eq!(backlog.read_pending(), Ok(Vec::new()));
    assert_eq!(backlog.truncate_pending(&rec), Ok(()));
}

#[test]
fn write_pending_refuses_a_destination_that_its_name_would_file_elsewhere() {
    let mut backlog = FileBacklog::new("dir", listing(&[])).unwrap();
    let rec = record("a_b", "ms", Precision::Nanoseconds, &["m"]);
    assert_eq!(
        backlog.write_pending(&rec, &entries(&["m"])),
        Err(InfluxError::Error("file name does not lead back to the destination".to_string()))
    );
    assert_eq!(backlog.pending_paths().len(), 0);
    let rec = record("a", "b_c", Precision::Seconds, &["m"]);
    assert_eq!(
        backlog.write_pending(&rec, &entries(&["m"])),
        Err(InfluxError::Error("Invalid precision: c".to_string()))
    );
}

#[test]
fn truncate_pending_leaves_the_archive_of_another_destination() {
    // the file belongs to org `a`, bucket `b`, milliseconds
    let mut backlog = FileBacklog::new("dir", listing(&[("a_b_ms_ns.log", 2)])).unwrap();
    let rec = record("a_b", "ms", Precision::Nanoseconds, &[]);
    assert_eq!(backlog.truncate_pending(&rec), None);
    assert_eq!(backlog.pending_paths(), vec!["a_b_ms_ns.log"]);
}

#[test]
fn archives_that_were_read_are_open() {
    let scan = listing(&[("o_b_ns.log", 2), ("o_c_ns.log", 0)]);
    let mut backlog = FileBacklog::new("dir", scan).unwrap();
    backlog.read_pending(vec![decoded(&["a", "b"])]).unwrap();
    let read = record("o", "b", Precision::Nanoseconds, &["m"]);
    let unread = record("o", "c", Precision::Nanoseconds, &["m"]);
    assert_eq!(backlog.write_pending(&read, &entries(&["m"])).unwrap().open_file, false);
    assert_eq!(backlog.write_pending(&unread, &entries(&["m"])).unwrap().open_file, true);
}

#[test]
fn destination_of_a_record_is_told_apart() {
    let meta = ArchiveMeta::from_record(&record("o", "b", Precision::Seconds, &[]));
    assert!(meta.is_of(&record("o", "b", Precision::Seconds, &["m"])));
    assert!(!meta.is_of(&record("o", "b", Precision::Minutes, &[])));
    assert!(!meta.is_of(&record("o", "c", Precision::Seconds, &[])));
    assert!(!meta.is_of(&record("p", "b", Precision::Seconds, &[])));
}

#[test]
fn turned_items_come_in_the_opposite_order() {
    assert_eq!(influxc::backlogging::archive::turned(vec![1, 2, 3]), vec![3, 2, 1]);
    assert_eq!(influxc::backlogging::archive::turned(Vec::<u8>::new()), Vec::<u8>::new());
}
