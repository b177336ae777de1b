use otk::reading::{base_name, file_filter, read_error, run_read, shown_text, FileFilter};

#[test]
fn markup_has_one_filter() {
    for level in ["none", "minimal", "aggressive"] {
        assert_eq!(file_filter("views/sale.xml", level), Some(FileFilter::Xml));
        assert_eq!(file_filter("index.html", level), Some(FileFilter::Xml));
    }
}

#[test]
fn python_filter_follows_the_level() {
    assert_eq!(file_filter("a.py", "aggressive"), Some(FileFilter::PythonAggressive));
    assert_eq!(file_filter("a.py", "none"), None);
    assert_eq!(file_filter("a.py", "minimal"), Some(FileFilter::Python));
    assert_eq!(file_filter("a.py", "anything"), Some(FileFilter::Python));
}

#[test]
fn level_matters_to_python_only() {
    for level in ["none", "minimal", "aggressive"] {
        assert_eq!(file_filter("README.md", level), None);
        assert_eq!(file_filter("a.PY", level), None);
        assert_eq!(file_filter("py", level), None);
    }
}

#[test]
fn file_name_follows_the_last_slash() {
    assert_eq!(base_name("a/b/c.py"), "c.py");
    assert_eq!(base_name("c.py"), "c.py");
    assert_eq!(base_name("a/"), "");
    assert_eq!(base_name(""), "");
    assert_eq!(base_name("/x"), "x");
}

#[test]
fn read_is_planned() {
    let read = run_read("addons/sale/models.py", "aggressive", 1);
    assert_eq!(read.filter, Some(FileFilter::PythonAggressive));
    assert_eq!(read.label, "read_models.py");
    assert_eq!(read.original, "cat addons/sale/models.py");
    assert_eq!(read.recorded_as, "otk read addons/sale/models.py");
    assert_eq!(
        read.notice.as_deref(),
        Some("[otk] Reading: addons/sale/models.py (level: aggressive)")
    );
    assert_eq!(run_read("x", "none", 0).notice, None);
}

#[test]
fn text_is_shown_filtered_or_as_it_is() {
    let apply = |filter: FileFilter, raw: &str| format!("{:?} {}", filter, raw);
    assert_eq!(shown_text(Some(FileFilter::Xml), "<a/>", apply), "Xml <a/>");
    assert_eq!(shown_text(None, "<a/>", apply), "<a/>");
}

#[test]
fn read_error_message() {
    assert_eq!(read_error("x.py", "denied"), "Failed to read 'x.py': denied");
}

#[test]
fn without_a_filter_nothing_is_applied() {
    let apply = |_: FileFilter, _: &str| -> String { panic!("a filter ran") };
    assert_eq!(shown_text(None, "raw\n", apply), "raw\n");
}
