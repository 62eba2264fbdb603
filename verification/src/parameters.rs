//! The parameters of a job, and the lists of values that jobs are made from.

use vstd::prelude::*;
use vstd::string::*;
use crate::error::{BenchError, ErrorView};
use crate::formats::{parse_tables, table_lines_view, tables_view, toml_error_text, toml_tables, TableEntry, TableLine, Tables};
use crate::properties::{files_set, PropertiesFileMap, PropertiesFileView};
use crate::text::{same_text, to_chars};

verus! {

/// The lines of one file: property and value.
pub type Lines = Seq<(Seq<char>, Seq<char>)>;

/// The files of a parameter set: file name and lines.
pub type Files = Seq<(Seq<char>, Lines)>;

/// The name under which the parameters of the bencher itself stand.
pub open spec fn auto_bencher() -> Seq<char> {
    "auto_bencher"@
}

/// The fields of a text that blanks separate. A blank ends a field and
/// begins the next one, so a text with n blanks has n + 1 fields, and a field
/// is empty where two blanks meet or a blank stands at an end.
pub open spec fn fields(text: Seq<char>) -> Seq<Seq<char>>
    decreases text.len(),
{
    if text.len() == 0 {
        seq![Seq::<char>::empty()]
    } else {
        let before = fields(text.drop_last());
        if text.last() == ' ' {
            before.push(Seq::<char>::empty())
        } else {
            before.drop_last().push(before.last().push(text.last()))
        }
    }
}

/// The place of the first file called `name` from `from` on, if there is
/// one.
pub open spec fn file_place(files: Files, name: Seq<char>, from: int) -> Option<int>
    decreases files.len() - from,
{
    if from < 0 || from >= files.len() {
        None
    } else if files[from].0 == name {
        Some(from)
    } else {
        file_place(files, name, from + 1)
    }
}

/// The files with one more line: at the end of the first file called
/// `name`, or in a new file at the end where none is called so.
pub open spec fn with_line(
    files: Files,
    name: Seq<char>,
    property: Seq<char>,
    value: Seq<char>,
) -> Files {
    match file_place(files, name, 0) {
        Some(at) => files.update(at, (files[at].0, files[at].1.push((property, value)))),
        None => files.push((name, seq![(property, value)])),
    }
}

/// The value of the first line for `property` from `from` on, if there is
/// one.
pub open spec fn line_value(lines: Lines, property: Seq<char>, from: int) -> Option<Seq<char>>
    decreases lines.len() - from,
{
    if from < 0 || from >= lines.len() {
        None
    } else if lines[from].0 == property {
        Some(lines[from].1)
    } else {
        line_value(lines, property, from + 1)
    }
}

/// The value that the bencher's own files give `key`: that of the first
/// line for it in the first of them that has one.
pub open spec fn bencher_value(files: Files, key: Seq<char>, from: int) -> Option<Seq<char>>
    decreases files.len() - from,
{
    if from < 0 || from >= files.len() {
        None
    } else if files[from].0 == auto_bencher() && line_value(files[from].1, key, 0) is Some {
        line_value(files[from].1, key, 0)
    } else {
        bencher_value(files, key, from + 1)
    }
}

/// What is said when the bencher lacks a parameter.
pub open spec fn cannot_find(key: Seq<char>) -> ErrorView {
    ErrorView::Message("Cannot find parameter \""@ + key + "\" for the auto-bencher"@)
}

/// The properties of all lines, file by file.
pub open spec fn all_properties(files: Files) -> Seq<Seq<char>>
    decreases files.len(),
{
    if files.len() == 0 {
        Seq::empty()
    } else {
        all_properties(files.drop_last()) + files.last().1.map_values(
            |line: (Seq<char>, Seq<char>)| line.0,
        )
    }
}

/// The values of all lines, file by file.
pub open spec fn all_values(files: Files) -> Seq<Seq<char>>
    decreases files.len(),
{
    if files.len() == 0 {
        Seq::empty()
    } else {
        all_values(files.drop_last()) + files.last().1.map_values(
            |line: (Seq<char>, Seq<char>)| line.1,
        )
    }
}

/// The properties files after every one of `lines` is set in the file
/// called `name`, line by line.
pub open spec fn lines_applied(
    map: Seq<PropertiesFileView>,
    name: Seq<char>,
    lines: Lines,
) -> Seq<PropertiesFileView>
    decreases lines.len(),
{
    if lines.len() == 0 {
        map
    } else {
        files_set(
            lines_applied(map, name, lines.drop_last()),
            name,
            lines.last().0,
            lines.last().1,
        )
    }
}

/// The properties files after every line of every file of the parameters
/// is set in them, but for the bencher's own files.
pub open spec fn overridden(files: Files, map: Seq<PropertiesFileView>) -> Seq<PropertiesFileView>
    decreases files.len(),
{
    if files.len() == 0 {
        map
    } else {
        let before = overridden(files.drop_last(), map);
        if files.last().0 == auto_bencher() {
            before
        } else {
            lines_applied(before, files.last().0, files.last().1)
        }
    }
}

/// Texts as plain values.
pub open spec fn texts(list: Seq<&str>) -> Seq<Seq<char>> {
    list.map_values(|text: &str| text@)
}

/// The lines of a file as plain values.
pub open spec fn lines_view(lines: Seq<(&str, &str)>) -> Lines {
    lines.map_values(|line: (&str, &str)| (line.0@, line.1@))
}

/// The files of a parameter set as plain values.
pub open spec fn files_view(files: Seq<(&str, Vec<(&str, &str)>)>) -> Files {
    files.map_values(|file: (&str, Vec<(&str, &str)>)| (file.0@, lines_view(file.1@)))
}

/// Splits a text at its blanks.
pub fn split_fields<'a>(text: &'a str) -> (pieces: Vec<&'a str>)
    ensures
        texts(pieces@) == fields(text@),
{
    let chars = to_chars(text);
    let mut pieces: Vec<&'a str> = Vec::new();
    let mut start: usize = 0;
    let mut i: usize = 0;
    proof {
        assert(text@.take(0) =~= Seq::<char>::empty());
        assert(text@.subrange(0, 0) =~= Seq::<char>::empty());
        assert(texts(pieces@) =~= Seq::<Seq<char>>::empty());
        assert(fields(text@.take(0)) =~= texts(pieces@).push(text@.subrange(0, 0)));
    }
    while i < chars.len()
        invariant
            chars@ == text@,
            start <= i <= chars@.len(),
            fields(text@.take(i as int)) == texts(pieces@).push(
                text@.subrange(start as int, i as int),
            ),
        decreases chars@.len() - i,
    {
        let ghost before = fields(text@.take(i as int));
        proof {
            assert(text@.take(i + 1).drop_last() =~= text@.take(i as int));
            assert(text@.take(i + 1).last() == chars@[i as int]);
            assert(before.last() == text@.subrange(start as int, i as int));
            assert(before.drop_last() =~= texts(pieces@));
        }
        if chars[i] == ' ' {
            let piece = text.substring_char(start, i);
            let ghost done = pieces@;
            pieces.push(piece);
            start = i + 1;
            proof {
                assert(texts(pieces@) =~= texts(done).push(piece@));
                assert(text@.subrange(start as int, i + 1) =~= Seq::<char>::empty());
            }
        } else {
            proof {
                assert(text@.subrange(start as int, i + 1) =~= text@.subrange(
                    start as int,
                    i as int,
                ).push(chars@[i as int]));
            }
        }
        i += 1;
    }
    assert(text@.take(i as int) =~= text@);
    let piece = text.substring_char(start, i);
    let ghost done = pieces@;
    pieces.push(piece);
    assert(texts(pieces@) =~= texts(done).push(piece@));
    pieces
}

/// One set of parameters: for each file the values chosen for its
/// properties.
#[derive(Debug)]
pub struct Parameter<'a> {
    // (filename, (property, value))
    params: Vec<(&'a str, Vec<(&'a str, &'a str)>)>,
}

impl<'a> View for Parameter<'a> {
    type V = Files;

    closed spec fn view(&self) -> Files {
        files_view(self.params@)
    }
}

impl<'a> Clone for Parameter<'a> {
    fn clone(&self) -> (copy: Self)
        ensures
            copy@ == self@,
    {
        let mut params: Vec<(&'a str, Vec<(&'a str, &'a str)>)> = Vec::new();
        let mut i: usize = 0;
        while i < self.params.len()
            invariant
                i <= self.params@.len(),
                params@.len() == i,
                files_view(params@) == files_view(self.params@).take(i as int),
            decreases self.params@.len() - i,
        {
            let name: &'a str = self.params[i].0;
            let mut lines: Vec<(&'a str, &'a str)> = Vec::new();
            let mut k: usize = 0;
            while k < self.params[i].1.len()
                invariant
                    i < self.params@.len(),
                    k <= self.params@[i as int].1@.len(),
                    lines@ == self.params@[i as int].1@.take(k as int),
                decreases self.params@[i as int].1@.len() - k,
            {
                let line: (&'a str, &'a str) = self.params[i].1[k];
                lines.push(line);
                assert(lines@ =~= self.params@[i as int].1@.take(k + 1));
                k += 1;
            }
            assert(self.params@[i as int].1@.take(k as int) =~= self.params@[i as int].1@);
            let ghost before = params@;
            params.push((name, lines));
            proof {
                let wanted = files_view(self.params@);
                assert forall|j: int| 0 <= j < i + 1 implies files_view(params@)[j]
                    == wanted[j] by {
                    if j < i {
                        assert(params@[j] == before[j]);
                        assert(files_view(before)[j] == wanted.take(i as int)[j]);
                    }
                }
                assert(files_view(params@) =~= wanted.take(i + 1));
            }
            i += 1;
        }
        assert(files_view(self.params@).take(i as int) =~= files_view(self.params@));
        Parameter { params }
    }
}

fn cannot_find_error(key: &str) -> (error: BenchError)
    ensures
        error@ == cannot_find(key@),
{
    let mut message = String::from_str("Cannot find parameter \"");
    message.append(key);
    message.append("\" for the auto-bencher");
    BenchError::Message(message)
}

impl<'a> Parameter<'a> {
    /// A set without parameters.
    pub fn empty() -> (parameter: Parameter<'a>)
        ensures
            parameter@ == Seq::<(Seq<char>, Lines)>::empty(),
    {
        let parameter = Parameter { params: Vec::new() };
        assert(parameter@ =~= Seq::<(Seq<char>, Lines)>::empty());
        parameter
    }

    /// Adds a line to the file called `filename`, and the file too if it is
    /// not there yet.
    pub fn add_param(&mut self, filename: &'a str, property: &'a str, value: &'a str)
        ensures
            final(self)@ == with_line(old(self)@, filename@, property@, value@),
    {
        let ghost before = self.params@;
        let ghost files = self@;
        let mut i: usize = 0;
        while i < self.params.len()
            invariant
                self.params@ == before,
                files == files_view(before),
                files == old(self)@,
                i <= before.len(),
                file_place(files, filename@, 0) == file_place(files, filename@, i as int),
            decreases before.len() - i,
        {
            if same_text(self.params[i].0, filename) {
                proof {
                    assert(files[i as int].0 == before[i as int].0@);
                    assert(file_place(files, filename@, i as int) == Some(i as int));
                    assert(files[i as int].1 == lines_view(before[i as int].1@));
                }
                let mut file = self.params.remove(i);
                let ghost lines = file.1@;
                assert(file == before[i as int]);
                file.1.push((property, value));
                let ghost name = file.0;
                let ghost longer = file.1@;
                self.params.insert(i, file);
                proof {
                    assert(self.params@ =~= before.update(i as int, self.params@[i as int]));
                    assert(self.params@[i as int].0 == name);
                    assert(self.params@[i as int].1@ == longer);
                    assert(lines_view(longer) =~= lines_view(lines).push((property@, value@)));
                    let wanted = files.update(
                        i as int,
                        (files[i as int].0, files[i as int].1.push((property@, value@))),
                    );
                    assert forall|j: int| 0 <= j < before.len() implies files_view(
                        self.params@,
                    )[j] == wanted[j] by {
                        if j != i {
                            assert(self.params@[j] == before[j]);
                        }
                    }
                    assert(files_view(self.params@) =~= wanted);
                }
                return ;
            }
            i += 1;
        }
        let mut param_lines: Vec<(&'a str, &'a str)> = Vec::new();
        param_lines.push((property, value));
        self.params.push((filename, param_lines));
        proof {
            assert(lines_view(param_lines@) =~= seq![(property@, value@)]);
            assert(files_view(self.params@) =~= files.push((filename@, seq![(property@, value@)])));
        }
    }

    /// The value that the bencher's own parameters give `key`. It is a
    /// failure if they give none.
    pub fn get_autobencher_param(&self, key: &str) -> (value: Result<&'a str, BenchError>)
        ensures
            match bencher_value(self@, key@, 0) {
                Some(text) => value matches Ok(found) && found@ == text,
                None => value matches Err(error) && error@ == cannot_find(key@),
            },
    {
        let ghost files = self@;
        let mut i: usize = 0;
        while i < self.params.len()
            invariant
                files == files_view(self.params@),
                i <= self.params@.len(),
                bencher_value(files, key@, 0) == bencher_value(files, key@, i as int),
            decreases self.params@.len() - i,
        {
            proof {
                reveal_strlit("auto_bencher");
            }
            if same_text(self.params[i].0, "auto_bencher") {
                let ghost lines = files[i as int].1;
                let mut k: usize = 0;
                while k < self.params[i].1.len()
                    invariant
                        files == files_view(self.params@),
                        i < self.params@.len(),
                        files[i as int].0 == auto_bencher(),
                        bencher_value(files, key@, 0) == bencher_value(files, key@, i as int),
                        lines == lines_view(self.params@[i as int].1@),
                        k <= self.params@[i as int].1@.len(),
                        line_value(lines, key@, 0) == line_value(lines, key@, k as int),
                    decreases self.params@[i as int].1@.len() - k,
                {
                    if same_text(self.params[i].1[k].0, key) {
                        proof {
                            assert(lines[k as int] == (
                                self.params@[i as int].1@[k as int].0@,
                                self.params@[i as int].1@[k as int].1@,
                            ));
                            assert(line_value(lines, key@, k as int) == Some(lines[k as int].1));

                            assert(bencher_value(files, key@, i as int) == Some(
                                lines[k as int].1,
                            ));
                        }
                        return Ok(self.params[i].1[k].1);
                    }
                    k += 1;
                }
            }
            i += 1;
        }
        Err(cannot_find_error(key))
    }

    /// Sets every parameter in the properties file it belongs to. The
    /// bencher's own parameters belong to none.
    pub fn override_properties(&self, files: &mut PropertiesFileMap)
        ensures
            final(files)@ == overridden(self@, old(files)@),
    {
        let ghost all = self@;
        let ghost start = files@;
        let mut i: usize = 0;
        while i < self.params.len()
            invariant
                all == files_view(self.params@),
                i <= self.params@.len(),
                files@ == overridden(all.take(i as int), start),
            decreases self.params@.len() - i,
        {
            proof {
                reveal_strlit("auto_bencher");
                assert(all.take(i + 1).drop_last() =~= all.take(i as int));
                assert(all.take(i + 1).last() == all[i as int]);
            }
            if !same_text(self.params[i].0, "auto_bencher") {
                let ghost before = files@;
                let ghost lines = all[i as int].1;
                let mut k: usize = 0;
                while k < self.params[i].1.len()
                    invariant
                        all == files_view(self.params@),
                        i < self.params@.len(),
                        lines == lines_view(self.params@[i as int].1@),
                        k <= self.params@[i as int].1@.len(),
                        files@ == lines_applied(before, all[i as int].0, lines.take(k as int)),
                    decreases self.params@[i as int].1@.len() - k,
                {
                    proof {
                        assert(lines.take(k + 1).drop_last() =~= lines.take(k as int));
                        assert(lines.take(k + 1).last() == lines[k as int]);
                    }
                    let line = self.params[i].1[k];
                    files.set(self.params[i].0, line.0, line.1);
                    k += 1;
                }
                assert(lines.take(k as int) =~= lines);
            }
            i += 1;
        }
        assert(all.take(i as int) =~= all);
    }

    /// The properties of all parameters, file by file.
    pub fn get_properties(&self) -> (properties: Vec<&'a str>)
        ensures
            texts(properties@) == all_properties(self@),
    {
        let ghost all = self@;
        let mut properties: Vec<&'a str> = Vec::new();
        let mut i: usize = 0;
        while i < self.params.len()
            invariant
                all == files_view(self.params@),
                i <= self.params@.len(),
                texts(properties@) == all_properties(all.take(i as int)),
            decreases self.params@.len() - i,
        {
            let ghost before = texts(properties@);
            let ghost lines = all[i as int].1;
            let mut k: usize = 0;
            while k < self.params[i].1.len()
                invariant
                    all == files_view(self.params@),
                    i < self.params@.len(),
                    lines == lines_view(self.params@[i as int].1@),
                    k <= self.params@[i as int].1@.len(),
                    texts(properties@) == before + lines.take(k as int).map_values(
                        |line: (Seq<char>, Seq<char>)| line.0,
                    ),
                decreases self.params@[i as int].1@.len() - k,
            {
                let ghost so_far = properties@;
                let property: &'a str = self.params[i].1[k].0;
                properties.push(property);
                proof {
                    assert(texts(properties@) =~= texts(so_far).push(property@));
                    assert(lines.take(k + 1).map_values(|line: (Seq<char>, Seq<char>)| line.0)
                        =~= lines.take(k as int).map_values(
                        |line: (Seq<char>, Seq<char>)| line.0,
                    ).push(property@));
                    assert(texts(properties@) =~= before + lines.take(k + 1).map_values(
                        |line: (Seq<char>, Seq<char>)| line.0,
                    ));
                }
                k += 1;
            }
            proof {
                assert(lines.take(k as int) =~= lines);
                assert(all.take(i + 1).drop_last() =~= all.take(i as int));
                assert(all.take(i + 1).last() == all[i as int]);
            }
            i += 1;
        }
        assert(all.take(i as int) =~= all);
        properties
    }

    /// The values of all parameters, file by file.
    pub fn get_properties_values(&self) -> (values: Vec<&'a str>)
        ensures
            texts(values@) == all_values(self@),
    {
        let ghost all = self@;
        let mut values: Vec<&'a str> = Vec::new();
        let mut i: usize = 0;
        while i < self.params.len()
            invariant
                all == files_view(self.params@),
                i <= self.params@.len(),
                texts(values@) == all_values(all.take(i as int)),
            decreases self.params@.len() - i,
        {
            let ghost before = texts(values@);
            let ghost lines = all[i as int].1;
            let mut k: usize = 0;
            while k < self.params[i].1.len()
                invariant
                    all == files_view(self.params@),
                    i < self.params@.len(),
                    lines == lines_view(self.params@[i as int].1@),
                    k <= self.params@[i as int].1@.len(),
                    texts(values@) == before + lines.take(k as int).map_values(
                        |line: (Seq<char>, Seq<char>)| line.1,
                    ),
                decreases self.params@[i as int].1@.len() - k,
            {
                let ghost so_far = values@;
                let value: &'a str = self.params[i].1[k].1;
                values.push(value);
                proof {
                    assert(texts(values@) =~= texts(so_far).push(value@));
                    assert(lines.take(k + 1).map_values(|line: (Seq<char>, Seq<char>)| line.1)
                        =~= lines.take(k as int).map_values(
                        |line: (Seq<char>, Seq<char>)| line.1,
                    ).push(value@));
                    assert(texts(values@) =~= before + lines.take(k + 1).map_values(
                        |line: (Seq<char>, Seq<char>)| line.1,
                    ));
                }
                k += 1;
            }
            proof {
                assert(lines.take(k as int) =~= lines);
                assert(all.take(i + 1).drop_last() =~= all.take(i as int));
                assert(all.take(i + 1).last() == all[i as int]);
            }
            i += 1;
        }
        assert(all.take(i as int) =~= all);
        values
    }
}

/// Every set of parameters that can be made from the lists, from the line
/// `line_id` of the file `file_id` on, with `current` as what the lines
/// before have chosen.
///
/// A line offers the fields of its list of values. Each field in turn is
/// added to `current`, and the choice goes on with the next line, so the
/// sets that differ in a later line stand next to each other. After the last
/// line of a file comes the first of the next file, and after the last file
/// `current` is complete.
pub open spec fn combinations(lists: Files, file_id: int, line_id: int, current: Files) -> Seq<
    Files,
>
    decreases lists.len() - file_id, lists[file_id].1.len() - line_id, 1int, 0int,
{
    if 0 <= file_id < lists.len() {
        if 0 <= line_id < lists[file_id].1.len() {
            choices(lists, file_id, line_id, current, 0)
        } else {
            combinations(lists, file_id + 1, 0, current)
        }
    } else {
        seq![current]
    }
}

/// The sets for which the line `line_id` of the file `file_id` takes one of
/// its fields from `from` on.
pub open spec fn choices(lists: Files, file_id: int, line_id: int, current: Files, from: int) -> Seq<
    Files,
>
    decreases lists.len() - file_id, lists[file_id].1.len() - line_id, 0int, fields(
        lists[file_id].1[line_id].1,
    ).len() - from,
{
    let line = lists[file_id].1[line_id];
    let values = fields(line.1);
    if 0 <= file_id < lists.len() && 0 <= line_id < lists[file_id].1.len() && 0 <= from
        < values.len() {
        combinations(
            lists,
            file_id,
            line_id + 1,
            with_line(current, lists[file_id].0, line.0, values[from]),
        ) + choices(lists, file_id, line_id, current, from + 1)
    } else {
        Seq::empty()
    }
}

/// Lines with their lists of values as plain values.
pub open spec fn list_lines_view(lines: Seq<(String, String)>) -> Lines {
    lines.map_values(|line: (String, String)| (line.0@, line.1@))
}

/// The lists of a parameter file as plain values.
pub open spec fn lists_view(lists: Seq<(String, Vec<(String, String)>)>) -> Files {
    lists.map_values(|file: (String, Vec<(String, String)>)| (file.0@, list_lines_view(file.1@)))
}

/// Sets of parameters as plain values.
pub open spec fn parameters_view(list: Seq<Parameter>) -> Seq<Files> {
    list.map_values(|parameter: Parameter| parameter@)
}

/// For every property of every file the values that a job may take for it,
/// written with blanks between them.
#[derive(Debug)]
pub struct ParameterList {
    // (filename, (property, value list))
    param_lists: Vec<(String, Vec<(String, String)>)>,
}

impl View for ParameterList {
    type V = Files;

    closed spec fn view(&self) -> Files {
        lists_view(self.param_lists@)
    }
}

impl ParameterList {
    /// The list with the given files: for each its name and its lines of
    /// property and values.
    pub fn new(param_lists: Vec<(String, Vec<(String, String)>)>) -> (list: ParameterList)
        ensures
            list@ == lists_view(param_lists@),
    {
        ParameterList { param_lists }
    }

    /// Every set of parameters that the lists allow, one for each way to
    /// pick one value per property.
    pub fn to_vec(&self) -> (sets: Vec<Parameter<'_>>)
        ensures
            parameters_view(sets@) == combinations(self@, 0, 0, Seq::empty()),
    {
        let mut result = Vec::new();
        assert(parameters_view(result@) =~= Seq::<Files>::empty());
        self.iterate_parameters(0, 0, Parameter::empty(), &mut result);
        assert(Seq::<Files>::empty() + combinations(self@, 0, 0, Seq::empty()) =~= combinations(
            self@,
            0,
            0,
            Seq::empty(),
        ));
        result
    }

    // Find all combinations of parameters. Implemented by recursion
    fn iterate_parameters<'a>(
        &'a self,
        file_id: usize,
        line_id: usize,
        current: Parameter<'a>,
        results: &mut Vec<Parameter<'a>>,
    )
        ensures
            parameters_view(final(results)@) == parameters_view(old(results)@) + combinations(
                self@,
                file_id as int,
                line_id as int,
                current@,
            ),
        decreases self@.len() - file_id, self@[file_id as int].1.len() - line_id,
    {
        let ghost lists = self@;
        let ghost start = parameters_view(results@);
        // Check if the file id exceeds
        if file_id < self.param_lists.len() {
            let filename: &'a str = self.param_lists[file_id].0.as_str();
            assert(lists[file_id as int].0 == filename@);
            assert(lists[file_id as int].1 == list_lines_view(
                self.param_lists@[file_id as int].1@,
            ));
            // Check if the line id exceeds
            if line_id < self.param_lists[file_id].1.len() {
                // Read a line and split it
                let prop: &'a str = self.param_lists[file_id].1[line_id].0.as_str();
                let value_list: &'a str = self.param_lists[file_id].1[line_id].1.as_str();
                assert(lists[file_id as int].1[line_id as int] == (prop@, value_list@));
                let values = split_fields(value_list);
                let ghost offered = fields(value_list@);
                let mut k: usize = 0;
                while k < values.len()
                    invariant
                        lists == self@,
                        file_id < lists.len(),
                        line_id < lists[file_id as int].1.len(),
                        line_id < usize::MAX,
                        lists[file_id as int].0 == filename@,
                        lists[file_id as int].1[line_id as int] == (prop@, value_list@),
                        offered == fields(value_list@),
                        texts(values@) == offered,
                        k <= values@.len(),
                        parameters_view(results@) + choices(
                            lists,
                            file_id as int,
                            line_id as int,
                            current@,
                            k as int,
                        ) == start + choices(lists, file_id as int, line_id as int, current@, 0),
                    decreases values@.len() - k,
                {
                    let value: &'a str = values[k];
                    assert(value@ == offered[k as int]);
                    let ghost before = parameters_view(results@);
                    let mut new = current.clone();
                    new.add_param(filename, prop, value);
                    self.iterate_parameters(file_id, line_id + 1, new, results);
                    proof {
                        let made = combinations(
                            lists,
                            file_id as int,
                            line_id + 1,
                            with_line(current@, filename@, prop@, value@),
                        );
                        let rest = choices(
                            lists,
                            file_id as int,
                            line_id as int,
                            current@,
                            k + 1,
                        );
                        assert(choices(lists, file_id as int, line_id as int, current@, k as int)
                            == made + rest);
                        assert((before + made) + rest =~= before + (made + rest));
                    }
                    k += 1;
                }
                proof {
                    let rest = choices(lists, file_id as int, line_id as int, current@, k as int);
                    assert(rest =~= Seq::<Files>::empty());
                    assert(parameters_view(results@) + rest =~= parameters_view(results@));
                }
            } else {
                // To next file
                self.iterate_parameters(file_id + 1, 0, current, results);
            }
        } else {
            // Reach the bottom, save the result
            let ghost before = results@;
            results.push(current);
            assert(parameters_view(results@) =~= parameters_view(before).push(current@));
            assert(parameters_view(before).push(current@) =~= start + seq![current@]);
        }
    }
}

/// The lines of a table, if every one of them has a string for its value.
pub open spec fn text_lines(lines: Seq<(Seq<char>, Option<Seq<char>>)>) -> Option<Lines>
    decreases lines.len(),
{
    if lines.len() == 0 {
        Some(Seq::empty())
    } else {
        match (text_lines(lines.drop_last()), lines.last().1) {
            (Some(before), Some(text)) => Some(before.push((lines.last().0, text))),
            _ => None,
        }
    }
}

/// The lists that a document gives: one file for every entry that is a
/// table, with the lines of the table. An entry that is no table is passed
/// over. There are no lists if a line of a table has no string for its
/// value.
pub open spec fn lists_of(tables: Tables) -> Option<Files>
    decreases tables.len(),
{
    if tables.len() == 0 {
        Some(Seq::empty())
    } else {
        match lists_of(tables.drop_last()) {
            None => None,
            Some(before) => match tables.last().1 {
                None => Some(before),
                Some(lines) => match text_lines(lines) {
                    Some(read) => Some(before.push((tables.last().0, read))),
                    None => None,
                },
            },
        }
    }
}

/// What is said of a list of values that is no string.
pub open spec fn not_a_text() -> ErrorView {
    ErrorView::Message("A parameter has a list of values that is no text."@)
}

/// Lists, or the failure to make them, as plain values.
pub open spec fn list_view(list: Result<ParameterList, BenchError>) -> Result<Files, ErrorView> {
    match list {
        Ok(lists) => Ok(lists@),
        Err(error) => Err(error@),
    }
}

fn text_lines_of(lines: &Vec<TableLine>) -> (read: Option<Vec<(String, String)>>)
    ensures
        read is Some <==> text_lines(table_lines_view(lines@)) is Some,
        read matches Some(texts) ==> text_lines(table_lines_view(lines@)) == Some(
            list_lines_view(texts@),
        ),
{
    let ghost all = table_lines_view(lines@);
    let mut read: Vec<(String, String)> = Vec::new();
    let mut i: usize = 0;
    proof {
        assert(all.take(0) =~= Seq::empty());
        assert(list_lines_view(read@) =~= Seq::empty());
    }
    while i < lines.len()
        invariant
            all == table_lines_view(lines@),
            i <= lines@.len(),
            text_lines(all.take(i as int)) == Some(list_lines_view(read@)),
        decreases lines@.len() - i,
    {
        proof {
            assert(all.take(i + 1).drop_last() =~= all.take(i as int));
            assert(all.take(i + 1).last() == all[i as int]);
        }
        match &lines[i].1 {
            Some(text) => {
                let ghost before = read@;
                read.push((lines[i].0.clone(), text.clone()));
                assert(list_lines_view(read@) =~= list_lines_view(before).push(
                    (lines@[i as int].0@, text@),
                ));
            },
            None => {
                proof {
                    lemma_text_lines_stay_none(all, i + 1);
                }
                return None;
            },
        }
        i += 1;
    }
    assert(all.take(i as int) =~= all);
    Some(read)
}

proof fn lemma_text_lines_stay_none(lines: Seq<(Seq<char>, Option<Seq<char>>)>, upto: int)
    requires
        0 <= upto <= lines.len(),
        text_lines(lines.take(upto)) is None,
    ensures
        text_lines(lines) is None,
    decreases lines.len() - upto,
{
    if upto < lines.len() {
        assert(lines.drop_last().take(upto) =~= lines.take(upto));
        lemma_text_lines_stay_none(lines.drop_last(), upto);
    } else {
        assert(lines.take(upto) =~= lines);
    }
}

proof fn lemma_lists_stay_none(tables: Tables, upto: int)
    requires
        0 <= upto <= tables.len(),
        lists_of(tables.take(upto)) is None,
    ensures
        lists_of(tables) is None,
    decreases tables.len() - upto,
{
    if upto < tables.len() {
        assert(tables.drop_last().take(upto) =~= tables.take(upto));
        lemma_lists_stay_none(tables.drop_last(), upto);
    } else {
        assert(tables.take(upto) =~= tables);
    }
}

impl ParameterList {
    /// The lists that the entries of a document give.
    pub fn from_tables(entries: &Vec<TableEntry>) -> (list: Result<ParameterList, BenchError>)
        ensures
            list_view(list) == match lists_of(tables_view(entries@)) {
                Some(files) => Ok::<Files, ErrorView>(files),
                None => Err::<Files, ErrorView>(not_a_text()),
            },
    {
        let ghost all = tables_view(entries@);
        let mut param_lists: Vec<(String, Vec<(String, String)>)> = Vec::new();
        let mut i: usize = 0;
        proof {
            assert(all.take(0) =~= Seq::empty());
            assert(lists_view(param_lists@) =~= Seq::empty());
        }
        while i < entries.len()
            invariant
                all == tables_view(entries@),
                i <= entries@.len(),
                lists_of(all.take(i as int)) == Some(lists_view(param_lists@)),
            decreases entries@.len() - i,
        {
            proof {
                assert(all.take(i + 1).drop_last() =~= all.take(i as int));
                assert(all.take(i + 1).last() == all[i as int]);
            }
            match &entries[i].1 {
                None => {},
                Some(lines) => match text_lines_of(lines) {
                    Some(read) => {
                        let ghost before = param_lists@;
                        param_lists.push((entries[i].0.clone(), read));
                        assert(lists_view(param_lists@) =~= lists_view(before).push(
                            (entries@[i as int].0@, list_lines_view(read@)),
                        ));
                    },
                    None => {
                        proof {
                            lemma_lists_stay_none(all, i + 1);
                        }
                        return Err(
                            BenchError::Message(
                                String::from_str(
                                    "A parameter has a list of values that is no text.",
                                ),
                            ),
                        );
                    },
                },
            }
            i += 1;
        }
        assert(all.take(i as int) =~= all);
        Ok(ParameterList { param_lists })
    }

    /// Reads the lists out of a parameter file, given as the text that it
    /// holds. A text that is no TOML is a failure with what the reader said
    /// of it.
    pub fn from_file(text: &str) -> (list: Result<ParameterList, BenchError>)
        ensures
            match toml_tables(text@) {
                None => list matches Err(BenchError::ParseTomlError(_)),
                Some(tables) => list_view(list) == match lists_of(tables) {
                    Some(files) => Ok::<Files, ErrorView>(files),
                    None => Err::<Files, ErrorView>(not_a_text()),
                },
            },
    {
        match parse_tables(text) {
            Ok(entries) => ParameterList::from_tables(&entries),
            Err(error) => Err(BenchError::ParseTomlError(toml_error_text(&error))),
        }
    }
}

} // verus!
