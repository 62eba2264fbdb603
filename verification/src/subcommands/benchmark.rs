//! Running the benchmarks: what goes into the report of a job.

use vstd::prelude::*;
use vstd::string::*;
use crate::error::BenchError;
use crate::parameters::{all_properties, all_values, texts, Parameter};
use crate::text::{decimal, to_chars, u128_to_string, usize_to_string};

verus! {

/// The sum of the throughputs that were measured.
pub open spec fn total(throughputs: Seq<Option<u32>>) -> nat
    decreases throughputs.len(),
{
    if throughputs.len() == 0 {
        0
    } else {
        total(throughputs.drop_last()) + match throughputs.last() {
            Some(n) => n as nat,
            None => 0,
        }
    }
}

/// What the report says of a job: the total throughput of its clients, or
/// `error` if the job failed.
pub open spec fn reported(outcome: Result<Vec<Option<u32>>, BenchError>) -> Seq<char> {
    match outcome {
        Ok(throughputs) => decimal(total(throughputs@)),
        Err(_) => "error"@,
    }
}

/// What stands in a text behind its last dot: the whole text if it has no
/// dot.
pub open spec fn last_segment(text: Seq<char>) -> Seq<char>
    decreases text.len(),
{
    if text.len() == 0 {
        Seq::empty()
    } else if text.last() == '.' {
        Seq::empty()
    } else {
        last_segment(text.drop_last()).push(text.last())
    }
}

/// The head of the report of a run: the number of the job, the short names
/// of the properties, the throughput.
pub open spec fn header(properties: Seq<Seq<char>>) -> Seq<Seq<char>> {
    seq!["job_id"@] + properties.map_values(|property: Seq<char>| last_segment(property)) + seq![
        "throughput"@,
    ]
}

/// The line of a job in the report: its number, the values of its
/// parameters, what is reported of it.
pub open spec fn row(job_id: nat, values: Seq<Seq<char>>, throughput: Seq<char>) -> Seq<Seq<char>> {
    seq![decimal(job_id)] + values + seq![throughput]
}

/// The name of the directory of a job in the report.
pub open spec fn job_dir(job_id: nat) -> Seq<char> {
    "job-"@ + decimal(job_id)
}

/// The name of the file that holds the throughput of a job over time.
pub open spec fn timeline_file(job_id: nat) -> Seq<char> {
    "job-"@ + decimal(job_id) + "-timeline.csv"@
}

/// Adds up what the clients measured.
pub fn total_throughput(throughputs: &Vec<Option<u32>>) -> (sum: u128)
    ensures
        sum == total(throughputs@),
{
    let mut sum: u128 = 0;
    let mut i: usize = 0;
    while i < throughputs.len()
        invariant
            i <= throughputs@.len(),
            sum == total(throughputs@.take(i as int)),
            sum <= i * 0x1_0000_0000,
        decreases throughputs@.len() - i,
    {
        proof {
            assert(throughputs@.take(i + 1).drop_last() =~= throughputs@.take(i as int));
            assert(throughputs@.take(i + 1).last() == throughputs@[i as int]);
        }
        if let Some(n) = throughputs[i] {
            sum = sum + (n as u128);
        }
        i += 1;
    }
    assert(throughputs@.take(i as int) =~= throughputs@);
    sum
}

/// What the report says of a job.
pub fn throughput_text(outcome: &Result<Vec<Option<u32>>, BenchError>) -> (text: String)
    ensures
        text@ == reported(*outcome),
{
    match outcome {
        Ok(throughputs) => u128_to_string(total_throughput(throughputs)),
        Err(_) => String::from_str("error"),
    }
}

/// The part of a property's name behind its last dot.
pub fn short_name<'a>(property: &'a str) -> (name: &'a str)
    ensures
        name@ == last_segment(property@),
{
    let chars = to_chars(property);
    let mut start: usize = 0;
    let mut i: usize = 0;
    proof {
        assert(property@.take(0) =~= Seq::<char>::empty());
        assert(property@.subrange(0, 0) =~= Seq::<char>::empty());
    }
    while i < chars.len()
        invariant
            chars@ == property@,
            start <= i <= chars@.len(),
            last_segment(property@.take(i as int)) == property@.subrange(start as int, i as int),
        decreases chars@.len() - i,
    {
        proof {
            assert(property@.take(i + 1).drop_last() =~= property@.take(i as int));
            assert(property@.take(i + 1).last() == chars@[i as int]);
        }
        if chars[i] == '.' {
            start = i + 1;
            assert(property@.subrange(start as int, i + 1) =~= Seq::<char>::empty());
        } else {
            assert(property@.subrange(start as int, i + 1) =~= property@.subrange(
                start as int,
                i as int,
            ).push(chars@[i as int]));
        }
        i += 1;
    }
    assert(property@.take(i as int) =~= property@);
    property.substring_char(start, i)
}

/// The head of the report for jobs with the properties of `parameter`.
pub fn report_header(parameter: &Parameter) -> (cells: Vec<String>)
    ensures
        cells.deep_view() == header(all_properties(parameter@)),
{
    let properties = parameter.get_properties();
    let ghost names = all_properties(parameter@);
    let ghost short = names.map_values(|property: Seq<char>| last_segment(property));
    let mut cells: Vec<String> = Vec::new();
    cells.push(String::from_str("job_id"));
    let mut i: usize = 0;
    assert(cells.deep_view() =~= seq!["job_id"@] + short.take(0));
    while i < properties.len()
        invariant
            names == texts(properties@),
            short == names.map_values(|property: Seq<char>| last_segment(property)),
            i <= properties@.len(),
            cells.deep_view() == seq!["job_id"@] + short.take(i as int),
        decreases properties@.len() - i,
    {
        let ghost before = cells.deep_view();
        let name = short_name(properties[i]);
        cells.push(String::from_str(name));
        proof {
            assert(names[i as int] == properties@[i as int]@);
            assert(cells.deep_view() =~= before.push(name@));
            assert(cells.deep_view() =~= seq!["job_id"@] + short.take(i + 1));
        }
        i += 1;
    }
    let ghost before = cells.deep_view();
    cells.push(String::from_str("throughput"));
    proof {
        assert(short.take(i as int) =~= short);
        assert(cells.deep_view() =~= before.push("throughput"@));
        assert(cells.deep_view() =~= header(names));
    }
    cells
}

/// The line of the job `job_id` in the report.
pub fn report_row(job_id: usize, parameter: &Parameter, throughput_str: &str) -> (cells: Vec<String>)
    ensures
        cells.deep_view() == row(job_id as nat, all_values(parameter@), throughput_str@),
{
    let values = parameter.get_properties_values();
    let ghost all = all_values(parameter@);
    let mut cells: Vec<String> = Vec::new();
    cells.push(usize_to_string(job_id));
    let mut i: usize = 0;
    assert(cells.deep_view() =~= seq![decimal(job_id as nat)] + all.take(0));
    while i < values.len()
        invariant
            all == texts(values@),
            i <= values@.len(),
            cells.deep_view() == seq![decimal(job_id as nat)] + all.take(i as int),
        decreases values@.len() - i,
    {
        let ghost before = cells.deep_view();
        cells.push(String::from_str(values[i]));
        proof {
            assert(all[i as int] == values@[i as int]@);
            assert(cells.deep_view() =~= before.push(values@[i as int]@));
            assert(cells.deep_view() =~= seq![decimal(job_id as nat)] + all.take(i + 1));
        }
        i += 1;
    }
    let ghost before = cells.deep_view();
    cells.push(String::from_str(throughput_str));
    proof {
        assert(all.take(i as int) =~= all);
        assert(cells.deep_view() =~= before.push(throughput_str@));
        assert(cells.deep_view() =~= row(job_id as nat, all, throughput_str@));
    }
    cells
}

/// The name of the directory of the job `job_id` in the report.
pub fn job_dir_name(job_id: usize) -> (name: String)
    ensures
        name@ == job_dir(job_id as nat),
{
    let mut name = String::from_str("job-");
    let number = usize_to_string(job_id);
    name.append(number.as_str());
    name
}

/// The name of the file for the throughput of the job `job_id` over time.
pub fn timeline_file_name(job_id: usize) -> (name: String)
    ensures
        name@ == timeline_file(job_id as nat),
{
    let mut name = job_dir_name(job_id);
    name.append("-timeline.csv");
    name
}

} // verus!
