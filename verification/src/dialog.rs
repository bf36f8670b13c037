//! The file-dialog filter table.
//!
//! The open and save pickers share one fixed, ordered list of named filter
//! groups. The library pins the table; presenting the native picker, and
//! pre-filling a suggested name on save, stays with the process shell.

use vstd::prelude::*;

verus! {

/// One named filter group: a label and the extensions it admits.
pub struct DialogFilter {
    pub name: String,
    pub extensions: Vec<String>,
}

/// The view of one filter group: its label and extensions.
pub open spec fn filter_view(f: DialogFilter) -> (Seq<char>, Seq<Seq<char>>) {
    (f.name@, f.extensions.deep_view())
}

/// The fixed filter table, in presentation order.
pub open spec fn dialog_filter_table() -> Seq<(Seq<char>, Seq<Seq<char>>)> {
    seq![
        ("All Files"@, seq!["*"@]),
        ("Markdown"@, seq!["md"@]),
        ("Text"@, seq!["txt"@]),
        ("JSON"@, seq!["json"@]),
        ("YAML"@, seq!["yaml"@, "yml"@]),
        ("CSV"@, seq!["csv"@]),
        ("JavaScript"@, seq!["js"@, "jsx"@]),
        ("TypeScript"@, seq!["ts"@, "tsx"@]),
        ("Python"@, seq!["py"@]),
        ("Rust"@, seq!["rs"@]),
        ("HTML"@, seq!["html"@, "htm"@]),
        ("CSS"@, seq!["css"@, "scss"@, "sass"@]),
    ]
}

fn exts1(a: &str) -> (r: Vec<String>)
    ensures
        r.deep_view() == seq![a@],
{
    let mut v: Vec<String> = Vec::new();
    v.push(a.to_owned());
    proof {
        assert(v.deep_view() =~= seq![a@]);
    }
    v
}

fn exts2(a: &str, b: &str) -> (r: Vec<String>)
    ensures
        r.deep_view() == seq![a@, b@],
{
    let mut v: Vec<String> = Vec::new();
    v.push(a.to_owned());
    v.push(b.to_owned());
    proof {
        assert(v.deep_view() =~= seq![a@, b@]);
    }
    v
}

fn exts3(a: &str, b: &str, c: &str) -> (r: Vec<String>)
    ensures
        r.deep_view() == seq![a@, b@, c@],
{
    let mut v: Vec<String> = Vec::new();
    v.push(a.to_owned());
    v.push(b.to_owned());
    v.push(c.to_owned());
    proof {
        assert(v.deep_view() =~= seq![a@, b@, c@]);
    }
    v
}

fn named(name: &str, extensions: Vec<String>) -> (r: DialogFilter)
    ensures
        filter_view(r) == (name@, extensions.deep_view()),
{
    DialogFilter { name: name.to_owned(), extensions }
}

/// Builds the filter list that both file pickers present, exactly the
/// fixed table in its order.
pub fn dialog_filters() -> (r: Vec<DialogFilter>)
    ensures
        r@.map_values(|f: DialogFilter| filter_view(f)) == dialog_filter_table(),
{
    let mut r: Vec<DialogFilter> = Vec::new();
    r.push(named("All Files", exts1("*")));
    r.push(named("Markdown", exts1("md")));
    r.push(named("Text", exts1("txt")));
    r.push(named("JSON", exts1("json")));
    r.push(named("YAML", exts2("yaml", "yml")));
    r.push(named("CSV", exts1("csv")));
    r.push(named("JavaScript", exts2("js", "jsx")));
    r.push(named("TypeScript", exts2("ts", "tsx")));
    r.push(named("Python", exts1("py")));
    r.push(named("Rust", exts1("rs")));
    r.push(named("HTML", exts2("html", "htm")));
    r.push(named("CSS", exts3("css", "scss", "sass")));
    proof {
        assert(r@.map_values(|f: DialogFilter| filter_view(f)) =~= dialog_filter_table());
    }
    r
}

} // verus!
