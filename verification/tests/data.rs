use hftbacktest::backtest::data::npy::{
    check_field_consistency, read_npy_header, write_npy, Field, NpyHeader,
};
use hftbacktest::backtest::data::parser::{parse, Value};
use hftbacktest::backtest::data::{Cache, CachedData, DataSource, Load, Reader, ReaderBuilder};
use hftbacktest::backtest::models::latency::{FeedLatencyAdjustment, FeedTimestamps};
use hftbacktest::backtest::BacktestError;

fn field(name: &str, ty: &str) -> Field {
    Field { name: name.to_string(), ty: ty.to_string() }
}

#[test]
fn header_is_read_from_its_dictionary_literal() {
    let text = "{'descr': [('ev', '<u8'), ('exch_ts', '<i8')], 'fortran_order': False, 'shape': (3,), }";
    let header = NpyHeader::from_header(text).unwrap();
    assert_eq!(header.descr.len(), 2);
    assert_eq!(header.descr[0].name, "ev");
    assert_eq!(header.descr[0].ty, "<u8");
    assert_eq!(header.descr[1].name, "exch_ts");
    assert_eq!(header.descr[1].ty, "<i8");
    assert!(!header.fortran_order);
    assert_eq!(header.shape, vec![3]);
}

#[test]
fn header_errors_name_the_faulty_entry() {
    assert!(NpyHeader::from_header("[1, 2]").is_err());
    assert!(NpyHeader::from_header("not a header").is_err());
    assert!(NpyHeader::from_header("{'descr': 5}").is_err());
    assert!(NpyHeader::from_header("{'shape': 'x'}").is_err());
    assert!(NpyHeader::from_header("{'color': 1}").is_err());
    // A later entry overrides an earlier one under the same key.
    let header = NpyHeader::from_header("{'shape': (1,), 'shape': (4, 5)}").unwrap();
    assert_eq!(header.shape, vec![4, 5]);
}

#[test]
fn written_header_reads_back() {
    let header = NpyHeader {
        descr: vec![field("ev", "<u8"), field("px", "<f8")],
        fortran_order: false,
        shape: vec![7],
    };
    let text = header.to_string_padding();
    assert!(text.starts_with(
        "{'descr': [('ev', '<u8'), ('px', '<f8'), ], 'fortran_order': False, 'shape': (7, )}"
    ));
    assert!(text.ends_with('\n'));
    // The magic string, the version and the length field take 10 bytes; the whole is aligned
    // to 64 bytes.
    assert_eq!((text.len() + 10) % 64, 0);
    let back = NpyHeader::from_header(&text).unwrap();
    assert_eq!(back.descr.len(), 2);
    assert_eq!(back.descr[1].name, "px");
    assert_eq!(back.descr[1].ty, "<f8");
    assert!(!back.fortran_order);
    assert_eq!(back.shape, vec![7]);
}

#[test]
fn write_npy_lays_out_magic_length_header_and_data() {
    let mut out = Vec::new();
    write_npy(&mut out, vec![field("a", "<i8")], 2, &[1, 2, 3]);
    assert_eq!(&out[0..8], &[0x93, b'N', b'U', b'M', b'P', b'Y', 1, 0]);
    let len = out[8] as usize + 256 * out[9] as usize;
    assert_eq!((10 + len) % 64, 0);
    assert_eq!(out.len(), 10 + len + 3);
    assert_eq!(&out[10 + len..], &[1, 2, 3]);
    let text = std::str::from_utf8(&out[10..10 + len]).unwrap();
    let header = NpyHeader::from_header(text).unwrap();
    assert_eq!(header.shape, vec![2]);
}

#[test]
fn field_consistency_reports_renames_and_rejects_type_changes() {
    let expected = vec![field("ev", "<u8"), field("px", "<f8")];
    let found = vec![field("ev", "<u8"), field("price", "<f8"), field("extra", "<i8")];
    let renamed = check_field_consistency(&expected, &found).unwrap();
    assert_eq!(renamed.len(), 1);
    assert_eq!(renamed[0].expected, "px");
    assert_eq!(renamed[0].found, "price");

    let found = vec![field("ev", "<i8")];
    let err = check_field_consistency(&expected, &found).unwrap_err();
    assert_eq!(err, "Field type mismatch: expected 'ev: <u8', but found 'ev: <i8'");
}

#[test]
fn parser_reads_nested_literals() {
    match parse("  {'a_1': 12, \"b\": [True, 'x<', (False,)]}") {
        Some(Value::Dict(entries)) => {
            assert_eq!(entries.len(), 2);
            assert_eq!(entries[0].0, "a_1");
            assert_eq!(entries[0].1.get_integer().unwrap(), 12);
            let list = entries[1].1.get_list().unwrap();
            assert_eq!(list.len(), 3);
            assert!(list[0].get_bool().unwrap());
            assert_eq!(list[1].get_string().unwrap(), "x<");
            assert!(!list[2].get_list().unwrap()[0].get_bool().unwrap());
        }
        _ => panic!("expected a dictionary"),
    }
    // A string holds only word characters, escapes and angle brackets.
    assert!(parse("{'a-b': 1}").is_none());
    assert!(parse("{'': 1}").is_none());
    assert!(parse("12").is_none());
    // Letters beyond ASCII are alphanumeric.
    assert!(parse("{'é': 1}").is_some());
}

#[test]
fn value_getters_name_the_expected_kind() {
    let v = Value::Integer(3);
    assert_eq!(v.get_string().unwrap_err(), "must be a string");
    assert_eq!(v.get_bool().unwrap_err(), "must be a bool");
    assert_eq!(Value::Bool(true).get_integer().unwrap_err(), "must be an unsigned integer");
}

#[test]
fn cache_drops_an_entry_when_every_reader_released_it() {
    let mut cache: Cache<Vec<u8>> = Cache::new();
    cache.prepare("a".to_string());
    assert!(cache.contains("a"));
    assert!(!cache.is_ready("a"));
    cache.set("a", vec![1, 2]);
    assert!(cache.is_ready("a"));
    assert_eq!(cache.get("a"), vec![1, 2]);
    assert_eq!(cache.get("a"), vec![1, 2]);
    cache.remove("a");
    assert!(cache.contains("a"));
    cache.remove("a");
    assert!(!cache.contains("a"));
}

#[test]
fn cached_data_counts_its_readers() {
    let mut item = CachedData::new(5u32);
    assert_eq!(item.checkout(), 5);
    assert_eq!(item.checkout(), 5);
    assert!(!item.turn_in());
    assert!(item.turn_in());
    let empty: CachedData<u32> = CachedData::empty();
    assert!(!empty.ready);
}

#[test]
fn reader_loads_files_ahead_and_hands_out_chunks_in_order() {

    let mut reader = ReaderBuilder::new()
        .data(vec![
            DataSource::File("a.npy".to_string()),
            DataSource::Data(vec![7u8]),
            DataSource::File("c.npz".to_string()),
        ])
        .build();
    // The first chunk is a file; loading ahead, the in-memory chunk after it needs no load.
    let loads = reader.next_loads(0).unwrap();
    assert_eq!(loads.len(), 1);
    assert!(matches!(&loads[0], Load::Npy(p) if p == "a.npy"));
    assert!(!reader.is_ready(0));
    reader.loaded("a.npy", vec![1, 2]);
    assert!(reader.is_ready(0));
    assert_eq!(reader.take(0), vec![1, 2]);
    // The in-memory chunk is cached already; the file after it is loaded ahead.
    let loads = reader.next_loads(0).unwrap();
    assert_eq!(loads.len(), 1);
    assert!(matches!(&loads[0], Load::Npz(p) if p == "c.npz"));
    assert!(reader.is_ready(0));
    assert_eq!(reader.take(0), vec![7]);
    // The file is awaited already.
    assert!(reader.next_loads(0).unwrap().is_empty());
    reader.loaded("c.npz", vec![3]);
    assert_eq!(reader.take(0), vec![3]);
    assert!(matches!(reader.next_loads(0), Err(BacktestError::EndOfData)));
    reader.release("a.npy");
}

#[test]
fn reader_rejects_unsupported_files() {

    let mut reader: Reader<Vec<u8>> = ReaderBuilder::new()
        .parallel_load(false)
        .data(vec![DataSource::File("data.csv".to_string())])
        .build();
    match reader.next_loads(0) {
        Err(BacktestError::DataError(m)) => assert_eq!(m, "unsupported data type"),
        _ => panic!("expected an error"),
    }
    match Reader::<Vec<u8>>::load_failed("a.npy", "not found") {
        BacktestError::DataError(m) => assert_eq!(m, "Failed to read file 'a.npy': not found"),
        _ => panic!("expected a data error"),
    }
}

#[test]
fn npy_header_is_checked_against_the_expected_fields() {

    let expected = vec![field("ev", "<u8"), field("px", "<f8")];
    let mut buf = Vec::new();
    write_npy(&mut buf, vec![field("ev", "<u8"), field("px", "<f8")], 1, &[0; 16]);
    let (offset, renamed) = read_npy_header(&buf, &expected).unwrap();
    assert_eq!(offset % 64, 0);
    assert_eq!(buf.len(), offset + 16);
    assert!(renamed.is_none());

    let mut buf = Vec::new();
    write_npy(&mut buf, vec![field("ev", "<u8"), field("price", "<f8")], 1, &[0; 16]);
    let (_, renamed) = read_npy_header(&buf, &expected).unwrap();
    let renamed = renamed.unwrap();
    assert_eq!((renamed[0].expected.as_str(), renamed[0].found.as_str()), ("px", "price"));

    let mut buf = Vec::new();
    write_npy(&mut buf, vec![field("ev", "<i8")], 1, &[0; 8]);
    assert_eq!(
        read_npy_header(&buf, &expected).unwrap_err(),
        "Field type mismatch: expected 'ev: <u8', but found 'ev: <i8'"
    );

    let mut bad = buf.clone();
    bad[0] = 0;
    assert_eq!(read_npy_header(&bad, &expected).unwrap_err(), "must start with \\x93NUMPY");
    let mut bad = buf.clone();
    bad[6] = 2;
    assert_eq!(read_npy_header(&bad, &expected).unwrap_err(), "support only version 1.0");
}

#[test]
fn reader_hands_out_each_in_memory_chunk_once_in_order() {
    let mut reader = ReaderBuilder::new()
        .data(vec![DataSource::Data(vec![0u8]), DataSource::Data(vec![0u8, 0u8])])
        .build();
    assert!(reader.next_loads(0).unwrap().is_empty());
    assert_eq!(reader.take(0).len(), 1);
    assert!(reader.next_loads(0).unwrap().is_empty());
    assert_eq!(reader.take(0).len(), 2);
    assert!(matches!(reader.next_loads(0), Err(BacktestError::EndOfData)));
    assert!(matches!(reader.next_loads(0), Err(BacktestError::EndOfData)));
    let mut cache: Cache<Vec<u8>> = Cache::new();
    cache.prepare("k".to_string());
    cache.set("k", vec![4, 5]);
    assert_eq!(cache.get("k"), vec![4, 5]);
    let placeholder: CachedData<Vec<u8>> = CachedData::empty();
    assert!(placeholder.data.is_empty());
}

#[test]
fn reader_preprocesses_its_chunks() {
    let feed = |local_ts: i64| vec![FeedTimestamps { exch_ts: 10, local_ts }];
    let mut reader = ReaderBuilder::new()
        .data(vec![DataSource::Data(feed(15)), DataSource::File("b.npy".to_string())])
        .build_with_preprocessor(&FeedLatencyAdjustment::new(5))
        .unwrap();
    reader.next_loads(0).unwrap();
    assert_eq!(reader.take(0)[0].local_ts, 20);
    assert!(reader.loaded_with_preprocessor("b.npy", feed(11), &FeedLatencyAdjustment::new(-5)).is_err());
    assert!(!reader.is_ready(0));
    reader.loaded_with_preprocessor("b.npy", feed(11), &FeedLatencyAdjustment::new(1)).unwrap();
    assert_eq!(reader.take(0)[0].local_ts, 12);
    // A chunk whose local timestamp would fall at or before its exchange timestamp fails the build.
    let refused = ReaderBuilder::new()
        .data(vec![DataSource::Data(feed(15))])
        .build_with_preprocessor(&FeedLatencyAdjustment::new(-5));
    match refused {
        Err(BacktestError::DataError(m)) => assert_eq!(
            m,
            "`local_ts` became less than or equal to `exch_ts` after applying the latency offset"
        ),
        _ => panic!("expected a data error"),
    }
}

#[test]
fn reader_clones_share_one_cache() {
    let mut reader = ReaderBuilder::new()
        .parallel_load(false)
        .data(vec![DataSource::File("a.npy".to_string()), DataSource::Data(vec![9u8])])
        .build();
    let clone = reader.clone_reader(0);
    let third = reader.clone_reader(0);
    assert_eq!((clone, third), (1, 2));
    // The first reader asks for the file; the clone finds it awaited already.
    assert_eq!(reader.next_loads(0).unwrap().len(), 1);
    assert!(reader.next_loads(clone).unwrap().is_empty());
    assert!(!reader.is_ready(clone));
    reader.loaded("a.npy", vec![1, 2, 3]);
    // What one loads, the other sees.
    assert!(reader.is_ready(0));
    assert!(reader.is_ready(clone));
    assert_eq!(reader.take(0), vec![1, 2, 3]);
    assert_eq!(reader.next_key(0).unwrap().len(), 36);
    assert_eq!(reader.next_key(clone).as_deref(), Some("a.npy"));
    assert_eq!(reader.take(clone), vec![1, 2, 3]);
    // Held by both readers, the chunk stays until both release it.
    reader.release("a.npy");
    assert!(reader.next_loads(third).unwrap().is_empty());
    reader.release("a.npy");
    assert_eq!(reader.next_loads(third).unwrap().len(), 1);
    assert_eq!(reader.take(clone), vec![9]);
    assert!(reader.next_key(clone).is_none());
    assert_eq!(reader.take(0), vec![9]);
}
