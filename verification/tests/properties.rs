use auto_bencher::error::BenchError;
use auto_bencher::properties::{PropertiesFile, PropertiesFileMap};

fn lines(list: &[(&str, &str)]) -> Vec<(String, String)> {
    list.iter().map(|(property, value)| (property.to_string(), value.to_string())).collect()
}

#[test]
fn a_property_is_set_only_where_it_is() {
    let mut file = PropertiesFile::new("id", "name");
    assert_eq!(file.id(), "id");
    assert_eq!(file.filename(), "name");
    file.set("a", "1");
    assert_eq!(file.lines(), vec![]);
    assert_eq!(file.get("a"), None);
    file.put("a", "1");
    file.put("b", "2");
    file.set("a", "3");
    file.set("c", "4");
    assert_eq!(file.lines(), lines(&[("a", "3"), ("b", "2")]));
    assert_eq!(file.get("a"), Some("3"));
    assert_eq!(file.get("c"), None);
    file.put("b", "5");
    assert_eq!(file.lines(), lines(&[("a", "3"), ("b", "5")]));
}

#[test]
fn a_property_stands_once_in_a_file() {
    let file = PropertiesFile::from_lines(
        "id",
        "name",
        &lines(&[("a", "1"), ("b", "2"), ("a", "3"), ("c", "4"), ("b", "5")]),
    );
    assert_eq!(file.lines(), lines(&[("a", "3"), ("b", "5"), ("c", "4")]));
}

#[test]
fn a_file_is_read_from_the_bytes_of_a_properties_file() {
    let text = "# comment\n\
org.vanilladb.bench.RTE=10\n\
org.vanilladb.bench.NAME = tp\\\n    cc\n\
key\\ with\\ blank : value\n\
! another comment\n\
empty=\n\
org.vanilladb.bench.RTE=20\n";
    let file = PropertiesFile::from_file("bench", "vanillabench", text.as_bytes()).unwrap();
    assert_eq!(file.id(), "bench");
    assert_eq!(file.filename(), "vanillabench");
    let mut read = file.lines();
    read.sort();
    assert_eq!(
        read,
        lines(&[
            ("empty", ""),
            ("key with blank", "value"),
            ("org.vanilladb.bench.NAME", "tpcc"),
            ("org.vanilladb.bench.RTE", "20"),
        ])
    );
    assert_eq!(file.get("org.vanilladb.bench.RTE"), Some("20"));
    let none = PropertiesFile::from_file("id", "f", b"").unwrap();
    assert_eq!(none.lines(), vec![]);
}

#[test]
fn bytes_that_are_no_properties_file_are_a_failure() {
    assert!(matches!(
        PropertiesFile::from_file("id", "f", b"a=\\u12"),
        Err(BenchError::ParesPropertiesError(_))
    ));
}

#[test]
fn files_are_kept_by_their_names() {
    let mut map = PropertiesFileMap::new();
    assert_eq!(map.len(), 0);
    map.insert(PropertiesFile::from_lines("x", "one", &lines(&[("a", "1")])));
    map.insert(PropertiesFile::from_lines("y", "two", &lines(&[("a", "2")])));
    map.insert(PropertiesFile::from_lines("z", "one", &lines(&[("b", "3")])));
    assert_eq!(map.len(), 2);
    assert_eq!(map.file(0).id(), "z");
    assert_eq!(map.file(0).lines(), lines(&[("b", "3")]));
    assert_eq!(map.file(1).filename(), "two");
    map.set("two", "a", "9");
    map.set("two", "b", "9");
    map.set("three", "a", "9");
    map.set("one", "a", "9");
    assert_eq!(map.file(0).lines(), lines(&[("b", "3")]));
    assert_eq!(map.file(1).lines(), lines(&[("a", "9")]));
}

#[test]
fn the_arguments_name_every_file() {
    let mut map = PropertiesFileMap::new();
    assert_eq!(map.get_vm_args("/work/benchmarker/props"), Ok("".to_owned()));
    map.insert(PropertiesFile::new("org.vanilladb.bench.config.file", "vanillabench"));
    assert_eq!(
        map.get_vm_args("/work/benchmarker/props"),
        Ok("-Dorg.vanilladb.bench.config.file=/work/benchmarker/props/vanillabench.properties"
            .to_owned())
    );
    map.insert(PropertiesFile::new("org.vanilladb.core.config.file", "vanilladb"));
    map.insert(PropertiesFile::new("java.util.logging.config.file", "logging"));
    assert_eq!(
        map.get_vm_args("p"),
        Ok("-Dorg.vanilladb.bench.config.file=p/vanillabench.properties \
-Dorg.vanilladb.core.config.file=p/vanilladb.properties \
-Djava.util.logging.config.file=p/logging.properties"
            .to_owned())
    );
}

#[test]
fn a_file_that_is_written_is_read_back() {
    let file = PropertiesFile::from_lines(
        "id",
        "name",
        &lines(&[("a.b", "1 2 3"), ("key with blank", "x=y"), ("empty", "")]),
    );
    let bytes = file.output_to_file().unwrap();
    let read = PropertiesFile::from_file("id", "name", &bytes).unwrap();
    let mut before = file.lines();
    let mut after = read.lines();
    before.sort();
    after.sort();
    assert_eq!(before, after);
    let none = PropertiesFile::new("id", "name");
    assert_eq!(none.output_to_file(), Ok(vec![]));
}

#[test]
fn the_files_of_a_directory_are_read_and_written() {
    let stored = vec![
        ("one.id".to_owned(), "one".to_owned(), b"a=1\nb=2\n".to_vec()),
        ("two.id".to_owned(), "two".to_owned(), b"c=3\n".to_vec()),
        ("late.id".to_owned(), "one".to_owned(), b"d=4\n".to_vec()),
    ];
    let map = PropertiesFileMap::from_dir(&stored).unwrap();
    assert_eq!(map.len(), 2);
    assert_eq!(map.file(0).id(), "late.id");
    assert_eq!(map.file(0).lines(), lines(&[("d", "4")]));
    assert_eq!(map.file(1).id(), "two.id");
    assert_eq!(map.file(1).lines(), lines(&[("c", "3")]));
    let written = map.output_to_dir().unwrap();
    assert_eq!(written.len(), 2);
    assert_eq!(written[0].0, "one");
    assert_eq!(written[1].0, "two");
    let again = PropertiesFile::from_file("x", "one", &written[0].1).unwrap();
    assert_eq!(again.lines(), lines(&[("d", "4")]));
    assert_eq!(PropertiesFileMap::from_dir(&vec![]).unwrap().len(), 0);
    let broken = vec![
        ("one.id".to_owned(), "one".to_owned(), b"a=1\n".to_vec()),
        ("two.id".to_owned(), "two".to_owned(), b"c=\\u12".to_vec()),
    ];
    assert!(matches!(
        PropertiesFileMap::from_dir(&broken),
        Err(BenchError::ParesPropertiesError(_))
    ));
}

#[test]
fn a_file_is_written_line_by_line_in_its_order() {
    let file = PropertiesFile::from_lines(
        "id",
        "name",
        &lines(&[("b.c", "1 2 3"), ("a", "x=y"), ("key with blank", ""), ("z", "t\tn\n#!:")]),
    );
    let expected = "b.c=1\\ 2\\ 3\na=x\\=y\nkey\\ with\\ blank=\nz=t\\tn\\n\\#\\!\\:\n";
    assert_eq!(file.output_to_file(), Ok(expected.as_bytes().to_vec()));
    let mut file = file;
    file.put("a", "again");
    let expected = "b.c=1\\ 2\\ 3\na=again\nkey\\ with\\ blank=\nz=t\\tn\\n\\#\\!\\:\n";
    assert_eq!(file.output_to_file(), Ok(expected.as_bytes().to_vec()));
}

#[test]
fn letters_of_other_alphabets_are_written_and_read_back() {
    let file = PropertiesFile::from_lines(
        "id",
        "name",
        &lines(&[("gr\u{fc}n", "\u{4e2d}\u{6587}"), ("plain", "text")]),
    );
    let bytes = file.output_to_file().unwrap();
    assert!(bytes.ends_with(b"plain=text\n"));
    let read = PropertiesFile::from_file("id", "name", &bytes).unwrap();
    assert_eq!(read.get("gr\u{fc}n"), Some("\u{4e2d}\u{6587}"));
    assert_eq!(read.get("plain"), Some("text"));
}

#[test]
fn the_files_of_a_directory_are_written_in_their_order() {
    let mut map = PropertiesFileMap::new();
    assert_eq!(map.output_to_dir(), Ok(vec![]));
    map.insert(PropertiesFile::from_lines("x", "one", &lines(&[("a", "1"), ("b", "2")])));
    map.insert(PropertiesFile::new("y", "two"));
    assert_eq!(
        map.output_to_dir(),
        Ok(vec![("one".to_owned(), b"a=1\nb=2\n".to_vec()), ("two".to_owned(), vec![])])
    );
}
