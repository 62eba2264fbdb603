//! The throughput of a job over time, added up over its clients.

use vstd::prelude::*;
use vstd::string::*;
use crate::error::{BenchError, ErrorView};
use crate::formats::{
    csv_error_text, csv_rows, csv_text, read_csv, records_view, trim, trimmed_text, write_csv,
};
use crate::text::{decimal, parse_unsigned, parse_usize, u128_to_string, usize_to_string};

verus! {

/// The sum of the throughputs that the rows give for `time`.
pub open spec fn total_at(rows: Seq<(nat, nat)>, time: nat) -> nat
    decreases rows.len(),
{
    if rows.len() == 0 {
        0
    } else {
        total_at(rows.drop_last(), time) + if rows.last().0 == time {
            rows.last().1
        } else {
            0
        }
    }
}

/// Whether a row stands for `time`.
pub open spec fn has_time(rows: Seq<(nat, nat)>, time: nat) -> bool {
    exists|k: int| 0 <= k < rows.len() && (#[trigger] rows[k]).0 == time
}

/// Whether `timeline` is the timeline of the rows: it has one point for
/// every time of the rows and for no other, each with the sum of the
/// throughputs at its time, and the points stand in the order of their
/// times.
pub open spec fn is_timeline(timeline: Seq<(nat, nat)>, rows: Seq<(nat, nat)>) -> bool {
    &&& forall|i: int, j: int|
        0 <= i < j < timeline.len() ==> (#[trigger] timeline[i]).0 < (#[trigger] timeline[j]).0
    &&& forall|i: int|
        0 <= i < timeline.len() ==> has_time(rows, (#[trigger] timeline[i]).0) && timeline[i].1
            == total_at(rows, timeline[i].0)
    &&& forall|k: int|
        0 <= k < rows.len() ==> exists|i: int|
            0 <= i < timeline.len() && (#[trigger] timeline[i]).0 == (#[trigger] rows[k]).0
}

/// Rows as plain values.
pub open spec fn rows_view(rows: Seq<(usize, usize)>) -> Seq<(nat, nat)> {
    rows.map_values(|row: (usize, usize)| (row.0 as nat, row.1 as nat))
}

/// A timeline as plain values.
pub open spec fn timeline_view(timeline: Seq<(usize, u128)>) -> Seq<(nat, nat)> {
    timeline.map_values(|point: (usize, u128)| (point.0 as nat, point.1 as nat))
}

proof fn lemma_total_of_absent_time(rows: Seq<(nat, nat)>, time: nat)
    requires
        !has_time(rows, time),
    ensures
        total_at(rows, time) == 0,
    decreases rows.len(),
{
    if rows.len() > 0 {
        assert(rows[rows.len() - 1].0 != time);
        assert(!has_time(rows.drop_last(), time)) by {
            if has_time(rows.drop_last(), time) {
                let k = choose|k: int|
                    0 <= k < rows.drop_last().len() && (#[trigger] rows.drop_last()[k]).0 == time;
                assert(rows[k].0 == time);
            }
        }
        lemma_total_of_absent_time(rows.drop_last(), time);
    }
}

proof fn lemma_total_is_bounded(rows: Seq<(nat, nat)>, time: nat, bound: nat)
    requires
        forall|k: int| 0 <= k < rows.len() ==> (#[trigger] rows[k]).1 <= bound,
    ensures
        total_at(rows, time) <= rows.len() * bound,
    decreases rows.len(),
{
    if rows.len() > 0 {
        lemma_total_is_bounded(rows.drop_last(), time, bound);
        assert(rows[rows.len() - 1].1 <= bound);
        assert((rows.len() - 1) * bound + bound == rows.len() * bound) by (nonlinear_arith);
    }
}

/// One more row whose time has a point already: the row's throughput is
/// added to the point.
proof fn lemma_point_grows(
    before: Seq<(nat, nat)>,
    seen: Seq<(nat, nat)>,
    row: (nat, nat),
    place: int,
)
    requires
        is_timeline(before, seen),
        0 <= place < before.len(),
        before[place].0 == row.0,
    ensures
        is_timeline(before.update(place, (row.0, before[place].1 + row.1)), seen.push(row)),
{
    let now = seen.push(row);
    let after = before.update(place, (row.0, before[place].1 + row.1));
    assert(now.drop_last() =~= seen);
    assert forall|j: int| 0 <= j < after.len() implies has_time(now, (#[trigger] after[j]).0)
        && after[j].1 == total_at(now, after[j].0) by {
        assert(before[j].0 == after[j].0);
        assert(has_time(seen, before[j].0));
        let k = choose|k: int| 0 <= k < seen.len() && (#[trigger] seen[k]).0 == before[j].0;
        assert(now[k].0 == after[j].0);
        if j != place {
            if j < place {
                assert(before[j].0 < before[place].0);
            } else {
                assert(before[place].0 < before[j].0);
            }
        }
    }
    assert forall|k: int| 0 <= k < now.len() implies exists|j: int|
        0 <= j < after.len() && (#[trigger] after[j]).0 == (#[trigger] now[k]).0 by {
        if k < seen.len() {
            assert(seen[k] == now[k]);
            let j = choose|j: int| 0 <= j < before.len() && (#[trigger] before[j]).0 == seen[k].0;
            assert(after[j].0 == now[k].0);
        } else {
            assert(after[place].0 == now[k].0);
        }
    }
    assert forall|i: int, j: int| 0 <= i < j < after.len() implies (#[trigger] after[i]).0 < (
    #[trigger] after[j]).0 by {
        assert(before[i].0 < before[j].0);
    }
}

/// One more row whose time has no point yet: a point for it comes in
/// between the earlier and the later times.
proof fn lemma_point_comes_in(
    before: Seq<(nat, nat)>,
    seen: Seq<(nat, nat)>,
    row: (nat, nat),
    place: int,
)
    requires
        is_timeline(before, seen),
        0 <= place <= before.len(),
        forall|j: int| 0 <= j < place ==> (#[trigger] before[j]).0 < row.0,
        place < before.len() ==> before[place].0 > row.0,
    ensures
        is_timeline(before.insert(place, row), seen.push(row)),
{
    let now = seen.push(row);
    let after = before.insert(place, row);
    before.insert_ensures(place, row);
    assert(now.drop_last() =~= seen);
    assert forall|j: int| place <= j < before.len() implies (#[trigger] before[j]).0 > row.0 by {
        if j > place {
            assert(before[place].0 < before[j].0);
        }
    }
    assert(!has_time(seen, row.0)) by {
        if has_time(seen, row.0) {
            let k = choose|k: int| 0 <= k < seen.len() && (#[trigger] seen[k]).0 == row.0;
            let j = choose|j: int| 0 <= j < before.len() && (#[trigger] before[j]).0 == seen[k].0;
            if j < place {
                assert(before[j].0 < row.0);
            } else {
                assert(before[j].0 > row.0);
            }
        }
    }
    lemma_total_of_absent_time(seen, row.0);
    assert forall|a: int, b: int| 0 <= a < b < after.len() implies (#[trigger] after[a]).0 < (
    #[trigger] after[b]).0 by {
        let old_a = if a < place {
            a
        } else {
            a - 1
        };
        let old_b = if b < place {
            b
        } else {
            b - 1
        };
        if a != place && b != place {
            assert(after[a] == before[old_a]);
            assert(after[b] == before[old_b]);
            assert(before[old_a].0 < before[old_b].0);
        } else if a == place {
            assert(after[b] == before[old_b]);
            assert(before[old_b].0 > row.0);
        } else {
            assert(after[a] == before[old_a]);
            assert(before[old_a].0 < row.0);
        }
    }
    assert forall|j: int| 0 <= j < after.len() implies has_time(now, (#[trigger] after[j]).0)
        && after[j].1 == total_at(now, after[j].0) by {
        if j != place {
            let old_j = if j < place {
                j
            } else {
                j - 1
            };
            assert(after[j] == before[old_j]);
            assert(has_time(seen, before[old_j].0));
            let k = choose|k: int| 0 <= k < seen.len() && (#[trigger] seen[k]).0 == before[old_j].0;
            assert(now[k].0 == after[j].0);
            assert(before[old_j].0 != row.0);
        } else {
            assert(now[seen.len() as int].0 == row.0);
        }
    }
    assert forall|k: int| 0 <= k < now.len() implies exists|j: int|
        0 <= j < after.len() && (#[trigger] after[j]).0 == (#[trigger] now[k]).0 by {
        if k < seen.len() {
            assert(seen[k] == now[k]);
            let j = choose|j: int| 0 <= j < before.len() && (#[trigger] before[j]).0 == seen[k].0;
            let new_j = if j < place {
                j
            } else {
                j + 1
            };
            assert(after[new_j] == before[j]);
        } else {
            assert(after[place].0 == now[k].0);
        }
    }
}

proof fn lemma_timelines_agree_upto(
    first: Seq<(nat, nat)>,
    second: Seq<(nat, nat)>,
    rows: Seq<(nat, nat)>,
    upto: int,
)
    requires
        is_timeline(first, rows),
        is_timeline(second, rows),
        0 <= upto <= first.len(),
    ensures
        upto <= second.len(),
        forall|i: int| 0 <= i < upto ==> first[i] == second[i],
    decreases upto,
{
    if upto > 0 {
        lemma_timelines_agree_upto(first, second, rows, upto - 1);
        let at = upto - 1;
        let time = first[at].0;
        // the time of the point stands in the rows, and so in the other timeline
        assert(has_time(rows, time));
        let k = choose|k: int| 0 <= k < rows.len() && (#[trigger] rows[k]).0 == time;
        let j = choose|j: int| 0 <= j < second.len() && (#[trigger] second[j]).0 == rows[k].0;
        if j < at {
            assert(first[j] == second[j]);
            assert(first[j].0 < first[at].0);
        }
        assert(at < second.len());
        if j > at {
            // then the other timeline has an earlier time here, which the
            // first one must hold too, and cannot
            let other = second[at].0;
            assert(second[at].0 < second[j].0);
            assert(has_time(rows, other));
            let m = choose|m: int| 0 <= m < rows.len() && (#[trigger] rows[m]).0 == other;
            let n = choose|n: int| 0 <= n < first.len() && (#[trigger] first[n]).0 == rows[m].0;
            if n < at {
                assert(first[n] == second[n]);
                assert(second[n].0 < second[at].0);
            } else if n > at {
                assert(first[at].0 < first[n].0);
            }
        }
        assert(second[at].0 == time);
    }
}

/// The rows have one timeline: two that are timelines of the same rows are
/// the same.
pub proof fn lemma_timeline_is_one(
    first: Seq<(nat, nat)>,
    second: Seq<(nat, nat)>,
    rows: Seq<(nat, nat)>,
)
    requires
        is_timeline(first, rows),
        is_timeline(second, rows),
    ensures
        first == second,
{
    lemma_timelines_agree_upto(first, second, rows, first.len() as int);
    lemma_timelines_agree_upto(second, first, rows, second.len() as int);
    assert(first =~= second);
}

/// Adds up the throughputs of the rows time by time.
pub fn aggregate(rows: &Vec<(usize, usize)>) -> (timeline: Vec<(usize, u128)>)
    ensures
        is_timeline(timeline_view(timeline@), rows_view(rows@)),
{
    let ghost all = rows_view(rows@);
    let mut timeline: Vec<(usize, u128)> = Vec::new();
    let mut i: usize = 0;
    proof {
        assert(all.take(0) =~= Seq::empty());
    }
    while i < rows.len()
        invariant
            all == rows_view(rows@),
            i <= rows@.len(),
            is_timeline(timeline_view(timeline@), all.take(i as int)),
        decreases rows@.len() - i,
    {
        let time = rows[i].0;
        let throughput = rows[i].1;
        let ghost before = timeline_view(timeline@);
        let ghost seen = all.take(i as int);
        let ghost row = (time as nat, throughput as nat);
        proof {
            assert(all.take(i + 1) =~= seen.push(row));
        }
        let mut place: usize = 0;
        while place < timeline.len() && timeline[place].0 < time
            invariant
                place <= timeline@.len(),
                before == timeline_view(timeline@),
                forall|j: int| 0 <= j < place ==> (#[trigger] before[j]).0 < time,
            decreases timeline@.len() - place,
        {
            place += 1;
        }
        if place < timeline.len() && timeline[place].0 == time {
            let sum_before = timeline[place].1;
            proof {
                assert(before[place as int] == (time as nat, sum_before as nat));
                assert forall|k: int| 0 <= k < seen.len() implies (#[trigger] seen[k]).1
                    <= usize::MAX by {
                    assert(seen[k] == all[k]);
                }
                lemma_total_is_bounded(seen, time as nat, usize::MAX as nat);
                assert(seen.len() * usize::MAX + usize::MAX <= u128::MAX) by (nonlinear_arith)
                    requires
                        seen.len() < usize::MAX,
                        usize::MAX <= u64::MAX,
                ;
                lemma_point_grows(before, seen, row, place as int);
            }
            timeline.set(place, (time, sum_before + (throughput as u128)));
            assert(timeline_view(timeline@) =~= before.update(
                place as int,
                (row.0, before[place as int].1 + row.1),
            ));
        } else {
            proof {
                if place < timeline@.len() {
                    assert(before[place as int].0 == timeline@[place as int].0);
                }
                lemma_point_comes_in(before, seen, row, place as int);
            }
            timeline.insert(place, (time, throughput as u128));
            assert(timeline_view(timeline@) =~= before.insert(place as int, row)) by {
                before.insert_ensures(place as int, row);
            }
        }
        i += 1;
    }
    assert(all.take(i as int) =~= all);
    timeline
}

/// What is said of a record of results with less than two cells.
pub open spec fn too_short() -> ErrorView {
    ErrorView::Message("A line of results has less than two fields."@)
}

/// What a cell gives: the number that stands in it, white space around it
/// left aside.
pub open spec fn cell_number(cell: Seq<char>) -> Result<nat, ErrorView> {
    match parse_unsigned(trimmed_text(cell), usize::MAX as nat) {
        Some(n) => Ok(n),
        None => Err(ErrorView::ParseIntError(trimmed_text(cell))),
    }
}

/// The row that a record gives: the time from its first cell and the
/// throughput from its second.
pub open spec fn row_of(record: Seq<Seq<char>>) -> Result<(nat, nat), ErrorView> {
    if record.len() < 2 {
        Err(too_short())
    } else {
        match cell_number(record[0]) {
            Err(error) => Err(error),
            Ok(time) => match cell_number(record[1]) {
                Err(error) => Err(error),
                Ok(throughput) => Ok((time, throughput)),
            },
        }
    }
}

/// The rows that the records give, or the failure of the first record that
/// gives none.
pub open spec fn rows_of(records: Seq<Seq<Seq<char>>>) -> Result<Seq<(nat, nat)>, ErrorView>
    decreases records.len(),
{
    if records.len() == 0 {
        Ok(Seq::empty())
    } else {
        match rows_of(records.drop_last()) {
            Err(error) => Err(error),
            Ok(before) => match row_of(records.last()) {
                Err(error) => Err(error),
                Ok(row) => Ok(before.push(row)),
            },
        }
    }
}

/// A row, or the failure to read one, as plain values.
pub open spec fn row_view(row: Result<(usize, usize), BenchError>) -> Result<(nat, nat), ErrorView> {
    match row {
        Ok(read) => Ok((read.0 as nat, read.1 as nat)),
        Err(error) => Err(error@),
    }
}

/// Rows, or the failure to read them, as plain values.
pub open spec fn read_view(rows: Result<Vec<(usize, usize)>, BenchError>) -> Result<
    Seq<(nat, nat)>,
    ErrorView,
> {
    match rows {
        Ok(read) => Ok(rows_view(read@)),
        Err(error) => Err(error@),
    }
}

fn read_cell(cell: &str) -> (number: Result<usize, BenchError>)
    ensures
        match cell_number(cell@) {
            Ok(n) => number == Ok::<usize, BenchError>(n as usize),
            Err(error) => number matches Err(failure) && failure@ == error,
        },
{
    let kept = trim(cell);
    match parse_usize(kept) {
        Some(n) => Ok(n),
        None => Err(BenchError::ParseIntError(String::from_str(kept))),
    }
}

/// Reads the time and the throughput out of a record of results.
pub fn read_row(record: &Vec<String>) -> (row: Result<(usize, usize), BenchError>)
    ensures
        row_view(row) == row_of(record.deep_view()),
{
    if record.len() < 2 {
        return Err(
            BenchError::Message(String::from_str("A line of results has less than two fields.")),
        );
    }
    assert(record.deep_view()[0] == record@[0]@);
    assert(record.deep_view()[1] == record@[1]@);
    let time = read_cell(record[0].as_str())?;
    let throughput = read_cell(record[1].as_str())?;
    Ok((time, throughput))
}

proof fn lemma_rows_stay_failed(records: Seq<Seq<Seq<char>>>, upto: int)
    requires
        0 <= upto <= records.len(),
        rows_of(records.take(upto)) is Err,
    ensures
        rows_of(records) == rows_of(records.take(upto)),
    decreases records.len() - upto,
{
    if upto < records.len() {
        assert(records.drop_last().take(upto) =~= records.take(upto));
        lemma_rows_stay_failed(records.drop_last(), upto);
    } else {
        assert(records.take(upto) =~= records);
    }
}

/// Reads the rows out of the records of a file of results.
pub fn read_rows(records: &Vec<Vec<String>>) -> (rows: Result<Vec<(usize, usize)>, BenchError>)
    ensures
        read_view(rows) == rows_of(records_view(records@)),
{
    let ghost all = records_view(records@);
    let mut rows: Vec<(usize, usize)> = Vec::new();
    let mut i: usize = 0;
    proof {
        assert(all.take(0) =~= Seq::empty());
        assert(rows_view(rows@) =~= Seq::empty());
    }
    while i < records.len()
        invariant
            all == records_view(records@),
            i <= records@.len(),
            rows_of(all.take(i as int)) == Ok::<Seq<(nat, nat)>, ErrorView>(rows_view(rows@)),
        decreases records@.len() - i,
    {
        proof {
            assert(all.take(i + 1).drop_last() =~= all.take(i as int));
            assert(all.take(i + 1).last() == records@[i as int].deep_view());
        }
        match read_row(&records[i]) {
            Ok(row) => {
                let ghost before = rows@;
                rows.push(row);
                assert(rows_view(rows@) =~= rows_view(before).push((row.0 as nat, row.1 as nat)));
            },
            Err(error) => {
                proof {
                    lemma_rows_stay_failed(all, i + 1);
                }
                return Err(error);
            },
        }
        i += 1;
    }
    assert(all.take(i as int) =~= all);
    Ok(rows)
}

/// The records of the file of a timeline: the head, then time and
/// throughput of every point.
pub open spec fn timeline_records(timeline: Seq<(nat, nat)>) -> Seq<Seq<Seq<char>>> {
    seq![seq!["time"@, "throughput"@]] + timeline.map_values(
        |point: (nat, nat)| seq![decimal(point.0), decimal(point.1)],
    )
}

/// Lays a timeline out as the records of its file.
pub fn write_timeline(timeline: &Vec<(usize, u128)>) -> (records: Vec<Vec<String>>)
    ensures
        records_view(records@) == timeline_records(timeline_view(timeline@)),
{
    let ghost points = timeline_view(timeline@);
    let ghost lines = points.map_values(
        |point: (nat, nat)| seq![decimal(point.0), decimal(point.1)],
    );
    let mut head: Vec<String> = Vec::new();
    head.push(String::from_str("time"));
    head.push(String::from_str("throughput"));
    assert(head.deep_view() =~= seq!["time"@, "throughput"@]);
    let mut records: Vec<Vec<String>> = Vec::new();
    records.push(head);
    let mut i: usize = 0;
    assert(records_view(records@) =~= seq![seq!["time"@, "throughput"@]] + lines.take(0));
    while i < timeline.len()
        invariant
            points == timeline_view(timeline@),
            lines == points.map_values(
                |point: (nat, nat)| seq![decimal(point.0), decimal(point.1)],
            ),
            i <= timeline@.len(),
            records_view(records@) == seq![seq!["time"@, "throughput"@]] + lines.take(i as int),
        decreases timeline@.len() - i,
    {
        let mut record: Vec<String> = Vec::new();
        record.push(usize_to_string(timeline[i].0));
        record.push(u128_to_string(timeline[i].1));
        let ghost before = records_view(records@);
        let ghost line = record.deep_view();
        records.push(record);
        proof {
            assert(line =~= seq![decimal(timeline@[i as int].0 as nat), decimal(timeline@[i as int].1 as nat)]);
            assert(points[i as int] == (timeline@[i as int].0 as nat, timeline@[i as int].1 as nat));
            assert(lines[i as int] == line);
            assert(records_view(records@) =~= before.push(line));
            assert(records_view(records@) =~= seq![seq!["time"@, "throughput"@]] + lines.take(
                i + 1,
            ));
        }
        i += 1;
    }
    assert(lines.take(i as int) =~= lines);
    records
}

/// The rows of all files of results: those of every file in turn. `Err`
/// with a failure is the first record that gives no row, and `Err` with
/// nothing is a file that cannot be read.
pub open spec fn all_rows(files: Seq<Seq<u8>>) -> Result<Seq<(nat, nat)>, Option<ErrorView>>
    decreases files.len(),
{
    if files.len() == 0 {
        Ok(Seq::empty())
    } else {
        match all_rows(files.drop_last()) {
            Err(failure) => Err(failure),
            Ok(before) => match csv_rows(files.last()) {
                None => Err(None),
                Some(records) => match rows_of(records) {
                    Err(error) => Err(Some(error)),
                    Ok(rows) => Ok(before + rows),
                },
            },
        }
    }
}

/// Files as plain values.
pub open spec fn files_bytes(files: Seq<Vec<u8>>) -> Seq<Seq<u8>> {
    files.map_values(|file: Vec<u8>| file@)
}

/// Whether `written` is the file of the timeline of the rows: the bytes
/// that are written for its records, or a failure where they cannot be
/// written.
pub open spec fn is_timeline_file(
    written: Result<Vec<u8>, BenchError>,
    timeline: Seq<(nat, nat)>,
    rows: Seq<(nat, nat)>,
) -> bool {
    &&& is_timeline(timeline, rows)
    &&& match csv_text(timeline_records(timeline)) {
        Some(bytes) => written matches Ok(file) && file@ == bytes,
        None => written matches Err(BenchError::CsvError(_)),
    }
}

/// Whether `written` is the file of the timeline of the rows.
pub open spec fn is_file_of(written: Result<Vec<u8>, BenchError>, rows: Seq<(nat, nat)>) -> bool {
    exists|timeline: Seq<(nat, nat)>| #[trigger] is_timeline_file(written, timeline, rows)
}

proof fn lemma_files_stay_failed(files: Seq<Seq<u8>>, upto: int)
    requires
        0 <= upto <= files.len(),
        all_rows(files.take(upto)) is Err,
    ensures
        all_rows(files) == all_rows(files.take(upto)),
    decreases files.len() - upto,
{
    if upto < files.len() {
        assert(files.drop_last().take(upto) =~= files.take(upto));
        lemma_files_stay_failed(files.drop_last(), upto);
    } else {
        assert(files.take(upto) =~= files);
    }
}

/// Makes the file of the timeline of a job out of the files of results of
/// its clients.
pub fn aggregate_results(files: &Vec<Vec<u8>>) -> (written: Result<Vec<u8>, BenchError>)
    ensures
        all_rows(files_bytes(files@)) matches Err(Some(error)) ==> written matches Err(failure)
            && failure@ == error,
        all_rows(files_bytes(files@)) matches Err(None) ==> written matches Err(
            BenchError::CsvError(_),
        ),
        all_rows(files_bytes(files@)) matches Ok(rows) ==> is_file_of(written, rows),
{
    let ghost all = files_bytes(files@);
    let mut rows: Vec<(usize, usize)> = Vec::new();
    let mut i: usize = 0;
    proof {
        assert(all.take(0) =~= Seq::empty());
        assert(rows_view(rows@) =~= Seq::empty());
    }
    while i < files.len()
        invariant
            all == files_bytes(files@),
            i <= files@.len(),
            all_rows(all.take(i as int)) == Ok::<Seq<(nat, nat)>, Option<ErrorView>>(
                rows_view(rows@),
            ),
        decreases files@.len() - i,
    {
        proof {
            assert(all.take(i + 1).drop_last() =~= all.take(i as int));
            assert(all.take(i + 1).last() == files@[i as int]@);
        }
        let records = match read_csv(files[i].as_slice()) {
            Ok(records) => records,
            Err(error) => {
                proof {
                    assert(csv_rows(all.take(i + 1).last()) is None);
                    assert(all_rows(all.take(i + 1)) == Err::<Seq<(nat, nat)>, Option<ErrorView>>(
                        None,
                    ));
                    lemma_files_stay_failed(all, i + 1);
                }
                return Err(BenchError::CsvError(csv_error_text(&error)));
            },
        };
        assert(csv_rows(all.take(i + 1).last()) == Some(records_view(records@)));
        let mut more = match read_rows(&records) {
            Ok(more) => more,
            Err(error) => {
                proof {
                    assert(all_rows(all.take(i + 1)) == Err::<Seq<(nat, nat)>, Option<ErrorView>>(
                        Some(error@),
                    ));
                    lemma_files_stay_failed(all, i + 1);
                }
                return Err(error);
            },
        };
        let ghost before = rows@;
        let ghost added = more@;
        rows.append(&mut more);
        assert(rows_view(rows@) =~= rows_view(before) + rows_view(added));
        i += 1;
    }
    assert(all.take(i as int) =~= all);
    let timeline = aggregate(&rows);
    let records = write_timeline(&timeline);
    let written = match write_csv(&records) {
        Ok(bytes) => Ok(bytes),
        Err(error) => Err(BenchError::CsvError(csv_error_text(&error))),
    };
    assert(all_rows(all) == Ok::<Seq<(nat, nat)>, Option<ErrorView>>(rows_view(rows@)));
    assert(is_timeline_file(written, timeline_view(timeline@), rows_view(rows@)));
    assert(is_file_of(written, rows_view(rows@)));
    written
}

} // verus!
