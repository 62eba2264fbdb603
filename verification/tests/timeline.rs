use auto_bencher::error::BenchError;
use auto_bencher::subcommands::timeline::{
    aggregate, aggregate_results, read_row, read_rows, write_timeline,
};

fn record(cells: &[&str]) -> Vec<String> {
    cells.iter().map(|cell| cell.to_string()).collect()
}

#[test]
fn throughputs_are_added_up_time_by_time() {
    assert_eq!(aggregate(&vec![]), vec![]);
    assert_eq!(aggregate(&vec![(5, 10)]), vec![(5, 10)]);
    assert_eq!(
        aggregate(&vec![(5, 10), (3, 1), (5, 7), (9, 0), (3, 2), (4, 4)]),
        vec![(3, 3), (4, 4), (5, 17), (9, 0)]
    );
    assert_eq!(
        aggregate(&vec![(0, usize::MAX), (0, usize::MAX), (0, 2)]),
        vec![(0, 2 * (usize::MAX as u128) + 2)]
    );
    assert_eq!(aggregate(&vec![(2, 1), (1, 1), (0, 1)]), vec![(0, 1), (1, 1), (2, 1)]);
}

#[test]
fn a_row_is_read_from_the_first_two_cells() {
    assert_eq!(read_row(&record(&["3", "120"])), Ok((3, 120)));
    assert_eq!(read_row(&record(&[" 3", "120 \t"])), Ok((3, 120)));
    assert_eq!(read_row(&record(&["3", "120", "whatever"])), Ok((3, 120)));
    assert_eq!(read_row(&record(&["+3", "0"])), Ok((3, 0)));
    assert_eq!(
        read_row(&record(&["3"])),
        Err(BenchError::Message("A line of results has less than two fields.".to_owned()))
    );
    assert_eq!(
        read_row(&record(&[])),
        Err(BenchError::Message("A line of results has less than two fields.".to_owned()))
    );
    assert_eq!(
        read_row(&record(&[" x ", "1"])),
        Err(BenchError::ParseIntError("x".to_owned()))
    );
    assert_eq!(read_row(&record(&["1", "1.5"])), Err(BenchError::ParseIntError("1.5".to_owned())));
    assert_eq!(read_row(&record(&["", "1"])), Err(BenchError::ParseIntError("".to_owned())));
}

#[test]
fn rows_are_read_up_to_the_first_that_is_wrong() {
    assert_eq!(read_rows(&vec![]), Ok(vec![]));
    assert_eq!(
        read_rows(&vec![record(&["1", "2"]), record(&["3", "4"])]),
        Ok(vec![(1, 2), (3, 4)])
    );
    assert_eq!(
        read_rows(&vec![record(&["1", "2"]), record(&["a", "4"]), record(&["b", "4"])]),
        Err(BenchError::ParseIntError("a".to_owned()))
    );
}

#[test]
fn a_timeline_is_laid_out_with_its_head() {
    assert_eq!(write_timeline(&vec![]), vec![record(&["time", "throughput"])]);
    assert_eq!(
        write_timeline(&vec![(3, 3), (5, 17)]),
        vec![record(&["time", "throughput"]), record(&["3", "3"]), record(&["5", "17"])]
    );
}

#[test]
fn the_files_of_the_clients_become_one_timeline() {
    let first = b"time, throughput\n5, 10\n10, 20\n15, 30\n".to_vec();
    let second = b"time,throughput\n10,1\n5,2\n20,3\n".to_vec();
    let written = aggregate_results(&vec![first, second]).unwrap();
    assert_eq!(
        String::from_utf8(written).unwrap(),
        "time,throughput\n5,12\n10,21\n15,30\n20,3\n"
    );
    let written = aggregate_results(&vec![]).unwrap();
    assert_eq!(String::from_utf8(written).unwrap(), "time,throughput\n");
    let only_head = b"time,throughput\n".to_vec();
    let written = aggregate_results(&vec![only_head]).unwrap();
    assert_eq!(String::from_utf8(written).unwrap(), "time,throughput\n");
}

#[test]
fn a_file_that_is_wrong_fails_the_timeline() {
    let text = b"time,throughput\n5,ten\n".to_vec();
    assert_eq!(aggregate_results(&vec![text]), Err(BenchError::ParseIntError("ten".to_owned())));
    let uneven = b"time,throughput\n5,10\n6\n".to_vec();
    assert!(matches!(aggregate_results(&vec![uneven]), Err(BenchError::CsvError(_))));
    let no_text = vec![b't', b'\n', 0xff, b'\n'];
    assert!(matches!(aggregate_results(&vec![no_text]), Err(BenchError::CsvError(_))));
    let one_cell = b"time\n5\n".to_vec();
    assert_eq!(
        aggregate_results(&vec![one_cell]),
        Err(BenchError::Message("A line of results has less than two fields.".to_owned()))
    );
}
