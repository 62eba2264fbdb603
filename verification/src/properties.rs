//! The properties files of the benchmarker: which property has which value
//! in which file.

use vstd::prelude::*;
use vstd::string::*;
use crate::error::BenchError;
use crate::formats::{
    holds_exactly, properties_error_text, properties_in, read_properties, write_line,
    written_line,
};
use crate::parameters::Lines;

verus! {

/// The place of the first line for `property` from `from` on, if there is
/// one.
pub open spec fn line_place(lines: Lines, property: Seq<char>, from: int) -> Option<int>
    decreases lines.len() - from,
{
    if from < 0 || from >= lines.len() {
        None
    } else if lines[from].0 == property {
        Some(from)
    } else {
        line_place(lines, property, from + 1)
    }
}

/// Whether no property stands in two lines.
pub open spec fn distinct_properties(lines: Lines) -> bool {
    forall|i: int, j: int|
        0 <= i < j < lines.len() ==> (#[trigger] lines[i]).0 != (#[trigger] lines[j]).0
}

/// The lines with `value` for `property`, if the property stands in them;
/// a property that does not is not added.
pub open spec fn lines_set(lines: Lines, property: Seq<char>, value: Seq<char>) -> Lines {
    match line_place(lines, property, 0) {
        Some(at) => lines.update(at, (property, value)),
        None => lines,
    }
}

/// The lines with `value` for `property`, in the place of its line or in a
/// new line at the end.
pub open spec fn lines_put(lines: Lines, property: Seq<char>, value: Seq<char>) -> Lines {
    match line_place(lines, property, 0) {
        Some(at) => lines.update(at, (property, value)),
        None => lines.push((property, value)),
    }
}

pub proof fn lemma_line_place(lines: Lines, property: Seq<char>, from: int)
    requires
        0 <= from,
    ensures
        match line_place(lines, property, from) {
            Some(at) => from <= at < lines.len() && lines[at].0 == property && forall|j: int|
                from <= j < at ==> lines[j].0 != property,
            None => forall|j: int| from <= j < lines.len() ==> lines[j].0 != property,
        },
    decreases lines.len() - from,
{
    if from < lines.len() && lines[from].0 != property {
        lemma_line_place(lines, property, from + 1);
    }
}

/// Setting and putting keep a file free of doubled properties.
pub proof fn lemma_lines_stay_distinct(lines: Lines, property: Seq<char>, value: Seq<char>)
    requires
        distinct_properties(lines),
    ensures
        distinct_properties(lines_set(lines, property, value)),
        distinct_properties(lines_put(lines, property, value)),
{
    lemma_line_place(lines, property, 0);
}

/// One properties file: the name under which the program is told of it, its
/// file name without the ending, and its lines.
#[derive(Debug)]
pub struct PropertiesFile {
    id: String,
    filename: String,
    properties: Vec<(String, String)>,
}

/// A properties file as plain values.
pub struct PropertiesFileView {
    pub id: Seq<char>,
    pub filename: Seq<char>,
    pub properties: Lines,
}

/// Lines as plain values.
pub open spec fn owned_lines_view(lines: Seq<(String, String)>) -> Lines {
    lines.map_values(|line: (String, String)| (line.0@, line.1@))
}

impl View for PropertiesFile {
    type V = PropertiesFileView;

    closed spec fn view(&self) -> PropertiesFileView {
        PropertiesFileView {
            id: self.id@,
            filename: self.filename@,
            properties: owned_lines_view(self.properties@),
        }
    }
}

impl PropertiesFileView {
    /// Whether the file is as a properties file is: no property stands in
    /// two of its lines.
    pub open spec fn well_formed(self) -> bool {
        distinct_properties(self.properties)
    }

    pub open spec fn set(self, property: Seq<char>, value: Seq<char>) -> PropertiesFileView {
        PropertiesFileView {
            id: self.id,
            filename: self.filename,
            properties: lines_set(self.properties, property, value),
        }
    }

    pub open spec fn put(self, property: Seq<char>, value: Seq<char>) -> PropertiesFileView {
        PropertiesFileView {
            id: self.id,
            filename: self.filename,
            properties: lines_put(self.properties, property, value),
        }
    }

    /// The argument that tells the program where the file lies under `dir`.
    pub open spec fn vm_arg(self, dir: Seq<char>) -> Seq<char> {
        "-D"@ + self.id + "="@ + dir + "/"@ + self.filename + ".properties"@
    }
}

impl PropertiesFile {
    /// A file without lines.
    pub fn new(id: &str, filename: &str) -> (file: PropertiesFile)
        ensures
            file@ == (PropertiesFileView {
                id: id@,
                filename: filename@,
                properties: Seq::empty(),
            }),
            file@.well_formed(),
    {
        let file = PropertiesFile {
            id: String::from_str(id),
            filename: String::from_str(filename),
            properties: Vec::new(),
        };
        assert(owned_lines_view(file.properties@) =~= Seq::empty());
        file
    }

    fn place(&self, property: &str) -> (place: Option<usize>)
        ensures
            place is Some <==> line_place(self@.properties, property@, 0) is Some,
            place matches Some(at) ==> line_place(self@.properties, property@, 0) == Some(at as int),
    {
        let ghost lines = self@.properties;
        let wanted = String::from_str(property);
        let mut i: usize = 0;
        while i < self.properties.len()
            invariant
                i <= self.properties@.len(),
                lines == owned_lines_view(self.properties@),
                wanted@ == property@,
                line_place(lines, property@, 0) == line_place(lines, property@, i as int),
            decreases self.properties@.len() - i,
        {
            if self.properties[i].0 == wanted {
                return Some(i);
            }
            i += 1;
        }
        None
    }

    /// Gives `property` the value `value`, if the file has the property.
    pub fn set(&mut self, property: &str, value: &str)
        ensures
            final(self)@ == old(self)@.set(property@, value@),
            old(self)@.well_formed() ==> final(self)@.well_formed(),
    {
        proof {
            if self@.well_formed() {
                lemma_lines_stay_distinct(self@.properties, property@, value@);
            }
        }
        match self.place(property) {
            Some(at) => {
                proof {
                    lemma_line_place(self@.properties, property@, 0);
                }
                let ghost before = self.properties@;
                self.properties.set(at, (String::from_str(property), String::from_str(value)));
                assert(owned_lines_view(self.properties@) =~= owned_lines_view(before).update(
                    at as int,
                    (property@, value@),
                ));
            },
            None => {},
        }
    }

    /// Gives `property` the value `value`, in a new line if the file does
    /// not have the property yet.
    pub fn put(&mut self, property: &str, value: &str)
        ensures
            final(self)@ == old(self)@.put(property@, value@),
            old(self)@.well_formed() ==> final(self)@.well_formed(),
    {
        proof {
            if self@.well_formed() {
                lemma_lines_stay_distinct(self@.properties, property@, value@);
            }
        }
        let ghost before = self.properties@;
        match self.place(property) {
            Some(at) => {
                proof {
                    lemma_line_place(self@.properties, property@, 0);
                }
                self.properties.set(at, (String::from_str(property), String::from_str(value)));
                assert(owned_lines_view(self.properties@) =~= owned_lines_view(before).update(
                    at as int,
                    (property@, value@),
                ));
            },
            None => {
                self.properties.push((String::from_str(property), String::from_str(value)));
                assert(owned_lines_view(self.properties@) =~= owned_lines_view(before).push(
                    (property@, value@),
                ));
            },
        }
    }

    /// The value of `property`, if the file has the property.
    pub fn get(&self, property: &str) -> (value: Option<&str>)
        ensures
            match line_place(self@.properties, property@, 0) {
                Some(at) => value matches Some(text) && text@ == self@.properties[at].1,
                None => value is None,
            },
    {
        match self.place(property) {
            Some(at) => {
                proof {
                    lemma_line_place(self@.properties, property@, 0);
                }
                Some(self.properties[at].1.as_str())
            },
            None => None,
        }
    }

    pub fn id(&self) -> (id: &str)
        ensures
            id@ == self@.id,
    {
        self.id.as_str()
    }

    pub fn filename(&self) -> (filename: &str)
        ensures
            filename@ == self@.filename,
    {
        self.filename.as_str()
    }

    /// The lines of the file, in their order.
    pub fn lines(&self) -> (lines: Vec<(String, String)>)
        ensures
            owned_lines_view(lines@) == self@.properties,
    {
        let mut lines: Vec<(String, String)> = Vec::new();
        let mut i: usize = 0;
        while i < self.properties.len()
            invariant
                i <= self.properties@.len(),
                lines@.len() == i,
                owned_lines_view(lines@) == owned_lines_view(self.properties@).take(i as int),
            decreases self.properties@.len() - i,
        {
            let ghost before = lines@;
            lines.push((self.properties[i].0.clone(), self.properties[i].1.clone()));
            proof {
                let wanted = owned_lines_view(self.properties@);
                assert forall|k: int| 0 <= k < i + 1 implies owned_lines_view(lines@)[k]
                    == wanted[k] by {
                    if k < i {
                        assert(owned_lines_view(before)[k] == wanted.take(i as int)[k]);
                        assert(lines@[k] == before[k]);
                    }
                }
                assert(owned_lines_view(lines@) =~= wanted.take(i + 1));
            }
            i += 1;
        }
        assert(owned_lines_view(self.properties@).take(i as int) =~= owned_lines_view(
            self.properties@,
        ));
        lines
    }

    fn vm_arg(&self, dir: &str) -> (arg: String)
        ensures
            arg@ == self@.vm_arg(dir@),
    {
        let mut arg = String::from_str("-D");
        arg.append(self.id.as_str());
        arg.append("=");
        arg.append(dir);
        arg.append("/");
        arg.append(self.filename.as_str());
        arg.append(".properties");
        arg
    }
}

/// The place of the first file called `filename` from `from` on, if there
/// is one.
pub open spec fn named_place(files: Seq<PropertiesFileView>, filename: Seq<char>, from: int) -> Option<
    int,
>
    decreases files.len() - from,
{
    if from < 0 || from >= files.len() {
        None
    } else if files[from].filename == filename {
        Some(from)
    } else {
        named_place(files, filename, from + 1)
    }
}

pub proof fn lemma_named_place(files: Seq<PropertiesFileView>, filename: Seq<char>, from: int)
    requires
        0 <= from,
    ensures
        match named_place(files, filename, from) {
            Some(at) => from <= at < files.len() && files[at].filename == filename,
            None => forall|j: int| from <= j < files.len() ==> files[j].filename != filename,
        },
    decreases files.len() - from,
{
    if from < files.len() && files[from].filename != filename {
        lemma_named_place(files, filename, from + 1);
    }
}

/// The files with `value` for `property` in the file called `filename`, if
/// there is such a file and it has the property.
pub open spec fn files_set(
    files: Seq<PropertiesFileView>,
    filename: Seq<char>,
    property: Seq<char>,
    value: Seq<char>,
) -> Seq<PropertiesFileView> {
    match named_place(files, filename, 0) {
        Some(at) => files.update(at, files[at].set(property, value)),
        None => files,
    }
}

/// The files with `file` in the place of the file of its name, or at the
/// end if none has its name.
pub open spec fn files_put(files: Seq<PropertiesFileView>, file: PropertiesFileView) -> Seq<
    PropertiesFileView,
> {
    match named_place(files, file.filename, 0) {
        Some(at) => files.update(at, file),
        None => files.push(file),
    }
}

/// Whether the files are as the files of a run are: no two have the same
/// name, and each is well formed.
pub open spec fn well_formed_files(files: Seq<PropertiesFileView>) -> bool {
    &&& forall|i: int, j: int|
        0 <= i < j < files.len() ==> (#[trigger] files[i]).filename != (#[trigger] files[j]).filename
    &&& forall|i: int| 0 <= i < files.len() ==> (#[trigger] files[i]).well_formed()
}

/// Setting a property and taking a file in keep the files well formed.
pub proof fn lemma_files_stay_well_formed(
    files: Seq<PropertiesFileView>,
    filename: Seq<char>,
    property: Seq<char>,
    value: Seq<char>,
    file: PropertiesFileView,
)
    requires
        well_formed_files(files),
    ensures
        well_formed_files(files_set(files, filename, property, value)),
        file.well_formed() ==> well_formed_files(files_put(files, file)),
{
    lemma_named_place(files, filename, 0);
    lemma_named_place(files, file.filename, 0);
    match named_place(files, filename, 0) {
        Some(at) => {
            lemma_lines_stay_distinct(files[at].properties, property, value);
        },
        None => {},
    }
}

/// The arguments that tell the program where its properties files lie under
/// `dir`, one per file, with a blank between two of them.
pub open spec fn vm_args(files: Seq<PropertiesFileView>, dir: Seq<char>) -> Seq<char>
    decreases files.len(),
{
    if files.len() == 0 {
        Seq::empty()
    } else if files.len() == 1 {
        files[0].vm_arg(dir)
    } else {
        vm_args(files.drop_last(), dir) + " "@ + files.last().vm_arg(dir)
    }
}

/// The properties files of a run, by file name.
#[derive(Debug)]
pub struct PropertiesFileMap {
    files: Vec<PropertiesFile>,
}

impl View for PropertiesFileMap {
    type V = Seq<PropertiesFileView>;

    closed spec fn view(&self) -> Seq<PropertiesFileView> {
        self.files@.map_values(|file: PropertiesFile| file@)
    }
}

impl PropertiesFileMap {
    /// No files.
    pub fn new() -> (map: PropertiesFileMap)
        ensures
            map@ == Seq::<PropertiesFileView>::empty(),
            well_formed_files(map@),
    {
        let map = PropertiesFileMap { files: Vec::new() };
        assert(map@ =~= Seq::<PropertiesFileView>::empty());
        map
    }

    fn place(&self, filename: &str) -> (place: Option<usize>)
        ensures
            place is Some <==> named_place(self@, filename@, 0) is Some,
            place matches Some(at) ==> named_place(self@, filename@, 0) == Some(at as int),
    {
        let wanted = String::from_str(filename);
        let mut i: usize = 0;
        while i < self.files.len()
            invariant
                i <= self.files@.len(),
                wanted@ == filename@,
                named_place(self@, filename@, 0) == named_place(self@, filename@, i as int),
            decreases self.files@.len() - i,
        {
            if self.files[i].filename == wanted {
                return Some(i);
            }
            i += 1;
        }
        None
    }

    /// Takes `file` in, in the place of the file of its name if there is
    /// one.
    pub fn insert(&mut self, file: PropertiesFile)
        ensures
            final(self)@ == files_put(old(self)@, file@),
            well_formed_files(old(self)@) && file@.well_formed() ==> well_formed_files(
                final(self)@,
            ),
    {
        let ghost before = self@;
        proof {
            if well_formed_files(before) {
                lemma_files_stay_well_formed(before, file@.filename, Seq::empty(), Seq::empty(), file@);
            }
        }
        match self.place(file.filename.as_str()) {
            Some(at) => {
                proof {
                    lemma_named_place(before, file@.filename, 0);
                }
                self.files.set(at, file);
                assert(self@ =~= before.update(at as int, file@));
            },
            None => {
                self.files.push(file);
                assert(self@ =~= before.push(file@));
            },
        }
    }

    /// Gives `property` the value `value` in the file called `filename`.
    /// Nothing changes where there is no such file, or where the file does
    /// not have the property.
    pub fn set(&mut self, filename: &str, property: &str, value: &str)
        ensures
            final(self)@ == files_set(old(self)@, filename@, property@, value@),
            well_formed_files(old(self)@) ==> well_formed_files(final(self)@),
    {
        let ghost before = self@;
        proof {
            if well_formed_files(before) {
                lemma_files_stay_well_formed(before, filename@, property@, value@, before[0]);
            }
        }
        match self.place(filename) {
            Some(at) => {
                proof {
                    lemma_named_place(before, filename@, 0);
                }
                let mut file = self.files.remove(at);
                file.set(property, value);
                self.files.insert(at, file);
                assert(self@ =~= before.update(at as int, before[at as int].set(property@, value@)));
            },
            None => {},
        }
    }

    /// How many files there are.
    pub fn len(&self) -> (len: usize)
        ensures
            len == self@.len(),
    {
        self.files.len()
    }

    /// The file at `at`, in the order in which the files came.
    pub fn file(&self, at: usize) -> (file: &PropertiesFile)
        requires
            at < self@.len(),
        ensures
            file@ == self@[at as int],
    {
        &self.files[at]
    }

    /// The arguments for the virtual machine that name every file under
    /// the directory `prop_dir_path`.
    pub fn get_vm_args(&self, prop_dir_path: &str) -> (args: Result<String, BenchError>)
        ensures
            args matches Ok(text) && text@ == vm_args(self@, prop_dir_path@),
    {
        let mut text = String::new();
        let mut i: usize = 0;
        while i < self.files.len()
            invariant
                i <= self.files@.len(),
                text@ == vm_args(self@.take(i as int), prop_dir_path@),
            decreases self.files@.len() - i,
        {
            let arg = self.files[i].vm_arg(prop_dir_path);
            if i > 0 {
                text.append(" ");
            }
            text.append(arg.as_str());
            proof {
                let upto = self@.take(i + 1);
                assert(upto.drop_last() =~= self@.take(i as int));
                assert(upto.last() == self@[i as int]);
                assert(text@ =~= vm_args(upto, prop_dir_path@));
            }
            i += 1;
        }
        assert(self@.take(i as int) =~= self@);
        Ok(text)
    }
}

/// The bytes of the properties file that holds the lines: what is written
/// for each line, one after the other in the order of the lines. There are
/// none if a line cannot be written.
pub open spec fn file_text(lines: Lines) -> Option<Seq<u8>>
    decreases lines.len(),
{
    if lines.len() == 0 {
        Some(Seq::empty())
    } else {
        match (file_text(lines.drop_last()), written_line(lines.last().0, lines.last().1)) {
            (Some(before), Some(line)) => Some(before + line),
            _ => None,
        }
    }
}

proof fn lemma_file_text_stays_none(lines: Lines, upto: int)
    requires
        0 <= upto <= lines.len(),
        file_text(lines.take(upto)) is None,
    ensures
        file_text(lines) is None,
    decreases lines.len() - upto,
{
    if upto < lines.len() {
        assert(lines.drop_last().take(upto) =~= lines.take(upto));
        lemma_file_text_stays_none(lines.drop_last(), upto);
    } else {
        assert(lines.take(upto) =~= lines);
    }
}

/// The lines that come of putting every one of `lines` in turn: a property
/// that comes twice keeps its first place and its last value.
pub open spec fn all_put(lines: Lines) -> Lines
    decreases lines.len(),
{
    if lines.len() == 0 {
        Seq::empty()
    } else {
        lines_put(all_put(lines.drop_last()), lines.last().0, lines.last().1)
    }
}

/// Lines that are put one by one hold no property twice.
pub proof fn lemma_all_put_is_distinct(lines: Lines)
    ensures
        distinct_properties(all_put(lines)),
    decreases lines.len(),
{
    if lines.len() > 0 {
        lemma_all_put_is_distinct(lines.drop_last());
        lemma_lines_stay_distinct(all_put(lines.drop_last()), lines.last().0, lines.last().1);
    }
}

/// Lines in which no property comes twice stay as they are when they are
/// put one by one.
pub proof fn lemma_all_put_distinct(lines: Lines)
    requires
        distinct_properties(lines),
    ensures
        all_put(lines) == lines,
    decreases lines.len(),
{
    if lines.len() > 0 {
        let before = lines.drop_last();
        assert(distinct_properties(before)) by {
            assert forall|i: int, j: int| 0 <= i < j < before.len() implies (#[trigger] before[i]).0
                != (#[trigger] before[j]).0 by {
                assert(before[i] == lines[i]);
                assert(before[j] == lines[j]);
            }
        }
        lemma_all_put_distinct(before);
        lemma_line_place(before, lines.last().0, 0);
        assert(line_place(before, lines.last().0, 0) is None) by {
            if line_place(before, lines.last().0, 0) is Some {
                let at = line_place(before, lines.last().0, 0)->0;
                assert(before[at] == lines[at]);
                assert(lines[at].0 != lines[lines.len() - 1].0);
            }
        }
        assert(before.push(lines.last()) =~= lines);
    }
}

impl PropertiesFile {
    /// The file with the given lines, put in one by one.
    pub fn from_lines(id: &str, filename: &str, lines: &Vec<(String, String)>) -> (file:
        PropertiesFile)
        ensures
            file@ == (PropertiesFileView {
                id: id@,
                filename: filename@,
                properties: all_put(owned_lines_view(lines@)),
            }),
            file@.well_formed(),
    {
        proof {
            lemma_all_put_is_distinct(owned_lines_view(lines@));
        }
        let ghost all = owned_lines_view(lines@);
        let mut file = PropertiesFile::new(id, filename);
        let mut i: usize = 0;
        proof {
            assert(all.take(0) =~= Seq::empty());
        }
        while i < lines.len()
            invariant
                all == owned_lines_view(lines@),
                i <= lines@.len(),
                file@ == (PropertiesFileView {
                    id: id@,
                    filename: filename@,
                    properties: all_put(all.take(i as int)),
                }),
            decreases lines@.len() - i,
        {
            proof {
                assert(all.take(i + 1).drop_last() =~= all.take(i as int));
                assert(all.take(i + 1).last() == all[i as int]);
            }
            file.put(lines[i].0.as_str(), lines[i].1.as_str());
            i += 1;
        }
        assert(all.take(i as int) =~= all);
        file
    }

    /// The bytes of the properties file that holds the lines of this file:
    /// the lines as they are written, one after the other in their order. A
    /// line that cannot be written is a failure with what the writer said of
    /// it.
    pub fn output_to_file(&self) -> (written: Result<Vec<u8>, BenchError>)
        ensures
            match file_text(self@.properties) {
                Some(text) => written matches Ok(bytes) && bytes@ == text,
                None => written matches Err(BenchError::ParesPropertiesError(_)),
            },
    {
        let ghost lines = self@.properties;
        let mut bytes: Vec<u8> = Vec::new();
        let mut i: usize = 0;
        proof {
            assert(lines.take(0) =~= Seq::empty());
        }
        while i < self.properties.len()
            invariant
                lines == owned_lines_view(self.properties@),
                i <= self.properties@.len(),
                file_text(lines.take(i as int)) == Some(bytes@),
            decreases self.properties@.len() - i,
        {
            proof {
                assert(lines.take(i + 1).drop_last() =~= lines.take(i as int));
                assert(lines.take(i + 1).last() == (
                    self.properties@[i as int].0@,
                    self.properties@[i as int].1@,
                ));
            }
            match write_line(self.properties[i].0.as_str(), self.properties[i].1.as_str()) {
                Ok(mut line) => {
                    bytes.append(&mut line);
                },
                Err(error) => {
                    proof {
                        lemma_file_text_stays_none(lines, i + 1);
                    }
                    return Err(
                        BenchError::ParesPropertiesError(properties_error_text(&error)),
                    );
                },
            }
            i += 1;
        }
        assert(lines.take(i as int) =~= lines);
        Ok(bytes)
    }

    /// Reads a file out of a properties file, given as the bytes that it
    /// holds. Bytes that are no properties file are a failure with what the
    /// reader said of them.
    pub fn from_file(id: &str, filename: &str, bytes: &[u8]) -> (file: Result<
        PropertiesFile,
        BenchError,
    >)
        ensures
            match properties_in(bytes@) {
                None => file matches Err(BenchError::ParesPropertiesError(_)),
                Some(map) => file matches Ok(read) && read@.id == id@ && read@.filename
                    == filename@ && holds_exactly(read@.properties, map) && read@.well_formed(),
            },
    {
        match read_properties(bytes) {
            Ok(lines) => {
                proof {
                    lemma_all_put_distinct(owned_lines_view(lines@));
                }
                Ok(PropertiesFile::from_lines(id, filename, &lines))
            },
            Err(error) => Err(BenchError::ParesPropertiesError(properties_error_text(&error))),
        }
    }
}

/// A properties file as it lies in a directory: the name under which the
/// program is told of it, its file name without the ending, and its bytes.
pub type StoredFile = (String, String, Vec<u8>);

/// The files that come of the stored ones when `contents` holds the lines
/// of each: one after the other, each taking the place of an earlier one of
/// its name.
pub open spec fn files_of(stored: Seq<StoredFile>, contents: Seq<Lines>) -> Seq<PropertiesFileView>
    decreases stored.len(),
{
    if stored.len() == 0 {
        Seq::empty()
    } else {
        files_put(
            files_of(stored.drop_last(), contents.drop_last()),
            PropertiesFileView {
                id: stored.last().0@,
                filename: stored.last().1@,
                properties: contents.last(),
            },
        )
    }
}

/// Whether `contents` holds for each of the stored files the lines that are
/// read out of it.
pub open spec fn lines_read(stored: Seq<StoredFile>, contents: Seq<Lines>) -> bool {
    &&& contents.len() == stored.len()
    &&& forall|i: int|
        0 <= i < stored.len() ==> properties_in((#[trigger] stored[i]).2@) is Some && holds_exactly(
            contents[i],
            properties_in(stored[i].2@)->0,
        )
}

/// Whether `read` are the files that are read out of the stored ones.
pub open spec fn files_read(stored: Seq<StoredFile>, read: Seq<PropertiesFileView>) -> bool {
    exists|contents: Seq<Lines>|
        lines_read(stored, contents) && read == #[trigger] files_of(stored, contents)
}

/// Whether every one of the stored files is a properties file.
pub open spec fn all_readable(stored: Seq<StoredFile>) -> bool {
    forall|i: int| 0 <= i < stored.len() ==> properties_in((#[trigger] stored[i]).2@) is Some
}

/// What lies in the directory of the files: for each its file name without
/// the ending and the bytes of its properties file, in the order of the
/// files; nothing if a line of a file cannot be written.
pub open spec fn dir_text(files: Seq<PropertiesFileView>) -> Option<Seq<(Seq<char>, Seq<u8>)>>
    decreases files.len(),
{
    if files.len() == 0 {
        Some(Seq::empty())
    } else {
        match (dir_text(files.drop_last()), file_text(files.last().properties)) {
            (Some(before), Some(text)) => Some(before.push((files.last().filename, text))),
            _ => None,
        }
    }
}

/// Names and bytes as plain values.
pub open spec fn stored_view(stored: Seq<(String, Vec<u8>)>) -> Seq<(Seq<char>, Seq<u8>)> {
    stored.map_values(|file: (String, Vec<u8>)| (file.0@, file.1@))
}

proof fn lemma_dir_text_stays_none(files: Seq<PropertiesFileView>, upto: int)
    requires
        0 <= upto <= files.len(),
        dir_text(files.take(upto)) is None,
    ensures
        dir_text(files) is None,
    decreases files.len() - upto,
{
    if upto < files.len() {
        assert(files.drop_last().take(upto) =~= files.take(upto));
        lemma_dir_text_stays_none(files.drop_last(), upto);
    } else {
        assert(files.take(upto) =~= files);
    }
}

impl PropertiesFileMap {
    /// Reads the files of a directory, given as the files that it holds.
    /// The first of them that is no properties file is the failure.
    pub fn from_dir(stored: &Vec<StoredFile>) -> (map: Result<PropertiesFileMap, BenchError>)
        ensures
            all_readable(stored@) ==> (map matches Ok(files) && files_read(stored@, files@)
                && well_formed_files(files@)),
            !all_readable(stored@) ==> map matches Err(BenchError::ParesPropertiesError(_)),
    {
        let mut files = PropertiesFileMap::new();
        let mut i: usize = 0;
        let ghost mut contents: Seq<Lines> = Seq::empty();
        proof {
            assert(stored@.take(0) =~= Seq::<StoredFile>::empty());
        }
        while i < stored.len()
            invariant
                i <= stored@.len(),
                lines_read(stored@.take(i as int), contents),
                files@ == files_of(stored@.take(i as int), contents),
                well_formed_files(files@),
            decreases stored@.len() - i,
        {
            let ghost before = files@;
            let ghost seen = stored@.take(i as int);
            let file = match PropertiesFile::from_file(
                stored[i].0.as_str(),
                stored[i].1.as_str(),
                stored[i].2.as_slice(),
            ) {
                Ok(file) => file,
                Err(error) => {
                    proof {
                        assert(properties_in(stored@[i as int].2@) is None);
                    }
                    return Err(error);
                },
            };
            let ghost read = file@;
            files.insert(file);
            proof {
                let upto = stored@.take(i + 1);
                let longer = contents.push(read.properties);
                assert(upto.drop_last() =~= seen);
                assert(longer.drop_last() =~= contents);
                assert(upto.last() == stored@[i as int]);
                assert(read == (PropertiesFileView {
                    id: upto.last().0@,
                    filename: upto.last().1@,
                    properties: longer.last(),
                }));
                assert forall|k: int| 0 <= k < upto.len() implies properties_in(
                    (#[trigger] upto[k]).2@,
                ) is Some && holds_exactly(longer[k], properties_in(upto[k].2@)->0) by {
                    if k < i {
                        assert(seen[k] == upto[k]);
                    }
                }
                contents = longer;
            }
            i += 1;
        }
        proof {
            assert(stored@.take(i as int) =~= stored@);
            assert(files@ == files_of(stored@, contents));
            assert(all_readable(stored@));
        }
        Ok(files)
    }

    /// The files as they are to lie in a directory: for each its file name
    /// without the ending, and the bytes of its properties file. The first
    /// file with a line that cannot be written is the failure.
    pub fn output_to_dir(&self) -> (written: Result<Vec<(String, Vec<u8>)>, BenchError>)
        ensures
            match dir_text(self@) {
                Some(texts) => written matches Ok(stored) && stored_view(stored@) == texts,
                None => written matches Err(BenchError::ParesPropertiesError(_)),
            },
    {
        let ghost all = self@;
        let mut stored: Vec<(String, Vec<u8>)> = Vec::new();
        let mut i: usize = 0;
        proof {
            assert(all.take(0) =~= Seq::empty());
            assert(stored_view(stored@) =~= Seq::empty());
        }
        while i < self.files.len()
            invariant
                all == self@,
                i <= self.files@.len(),
                dir_text(all.take(i as int)) == Some(stored_view(stored@)),
            decreases self.files@.len() - i,
        {
            proof {
                assert(all.take(i + 1).drop_last() =~= all.take(i as int));
                assert(all.take(i + 1).last() == self.files@[i as int]@);
            }
            let bytes = match self.files[i].output_to_file() {
                Ok(bytes) => bytes,
                Err(error) => {
                    proof {
                        lemma_dir_text_stays_none(all, i + 1);
                    }
                    return Err(error);
                },
            };
            let name = String::from_str(self.files[i].filename());
            let ghost before = stored@;
            stored.push((name, bytes));
            assert(stored_view(stored@) =~= stored_view(before).push((name@, bytes@)));
            i += 1;
        }
        assert(all.take(i as int) =~= all);
        Ok(stored)
    }
}

} // verus!
