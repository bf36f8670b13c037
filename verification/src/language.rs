//! Language detection from file paths.
//!
//! A fixed table maps the case-folded file extension to a language tag; any
//! extension outside the table, and a path with no extension, yields the
//! `text` tag. Detection is total and depends on the extension alone.

use vstd::prelude::*;
use crate::casefold::{folded, name_eq_fold};
use crate::paths::{extension_of, extension_str};

verus! {

/// The language tag for a case-folded extension, per the fixed table.
pub open spec fn language_for(e: Seq<u32>) -> Seq<char> {
    if e == folded("md"@) || e == folded("markdown"@) {
        "markdown"@
    } else if e == folded("txt"@) {
        "text"@
    } else if e == folded("json"@) || e == folded("jsonc"@) {
        "json"@
    } else if e == folded("yaml"@) || e == folded("yml"@) {
        "yaml"@
    } else if e == folded("csv"@) {
        "csv"@
    } else if e == folded("js"@) || e == folded("jsx"@) || e == folded("mjs"@) || e == folded(
        "cjs"@,
    ) {
        "javascript"@
    } else if e == folded("ts"@) || e == folded("tsx"@) {
        "typescript"@
    } else if e == folded("py"@) || e == folded("pyw"@) {
        "python"@
    } else if e == folded("rs"@) {
        "rust"@
    } else if e == folded("html"@) || e == folded("htm"@) {
        "html"@
    } else if e == folded("css"@) || e == folded("scss"@) || e == folded("sass"@) || e == folded(
        "less"@,
    ) {
        "css"@
    } else if e == folded("xml"@) {
        "xml"@
    } else if e == folded("toml"@) {
        "toml"@
    } else if e == folded("sh"@) || e == folded("bash"@) {
        "shell"@
    } else if e == folded("c"@) || e == folded("h"@) {
        "c"@
    } else if e == folded("cpp"@) || e == folded("cc"@) || e == folded("cxx"@) || e == folded(
        "hpp"@,
    ) {
        "cpp"@
    } else if e == folded("java"@) {
        "java"@
    } else if e == folded("go"@) {
        "go"@
    } else if e == folded("rb"@) {
        "ruby"@
    } else if e == folded("php"@) {
        "php"@
    } else if e == folded("swift"@) {
        "swift"@
    } else if e == folded("kt"@) || e == folded("kts"@) {
        "kotlin"@
    } else if e == folded("sql"@) {
        "sql"@
    } else {
        "text"@
    }
}

/// Maps a path to its language tag: total, and a function of the
/// case-folded extension alone.
pub fn detect_language_from_path(path: &str) -> (r: String)
    ensures
        r@ == language_for(folded(extension_of(path@))),
{
    let e = extension_str(path);
    if name_eq_fold(e, "md") || name_eq_fold(e, "markdown") {
        "markdown".to_owned()
    } else if name_eq_fold(e, "txt") {
        "text".to_owned()
    } else if name_eq_fold(e, "json") || name_eq_fold(e, "jsonc") {
        "json".to_owned()
    } else if name_eq_fold(e, "yaml") || name_eq_fold(e, "yml") {
        "yaml".to_owned()
    } else if name_eq_fold(e, "csv") {
        "csv".to_owned()
    } else if name_eq_fold(e, "js") || name_eq_fold(e, "jsx") || name_eq_fold(e, "mjs")
        || name_eq_fold(e, "cjs") {
        "javascript".to_owned()
    } else if name_eq_fold(e, "ts") || name_eq_fold(e, "tsx") {
        "typescript".to_owned()
    } else if name_eq_fold(e, "py") || name_eq_fold(e, "pyw") {
        "python".to_owned()
    } else if name_eq_fold(e, "rs") {
        "rust".to_owned()
    } else if name_eq_fold(e, "html") || name_eq_fold(e, "htm") {
        "html".to_owned()
    } else if name_eq_fold(e, "css") || name_eq_fold(e, "scss") || name_eq_fold(e, "sass")
        || name_eq_fold(e, "less") {
        "css".to_owned()
    } else if name_eq_fold(e, "xml") {
        "xml".to_owned()
    } else if name_eq_fold(e, "toml") {
        "toml".to_owned()
    } else if name_eq_fold(e, "sh") || name_eq_fold(e, "bash") {
        "shell".to_owned()
    } else if name_eq_fold(e, "c") || name_eq_fold(e, "h") {
        "c".to_owned()
    } else if name_eq_fold(e, "cpp") || name_eq_fold(e, "cc") || name_eq_fold(e, "cxx")
        || name_eq_fold(e, "hpp") {
        "cpp".to_owned()
    } else if name_eq_fold(e, "java") {
        "java".to_owned()
    } else if name_eq_fold(e, "go") {
        "go".to_owned()
    } else if name_eq_fold(e, "rb") {
        "ruby".to_owned()
    } else if name_eq_fold(e, "php") {
        "php".to_owned()
    } else if name_eq_fold(e, "swift") {
        "swift".to_owned()
    } else if name_eq_fold(e, "kt") || name_eq_fold(e, "kts") {
        "kotlin".to_owned()
    } else if name_eq_fold(e, "sql") {
        "sql".to_owned()
    } else {
        "text".to_owned()
    }
}

/// The tag of a path depends on its case-folded extension alone: two paths
/// whose extensions fold alike carry the same language tag.
pub proof fn lemma_language_from_extension_only(p1: Seq<char>, p2: Seq<char>)
    requires
        folded(extension_of(p1)) == folded(extension_of(p2)),
    ensures
        language_for(folded(extension_of(p1))) == language_for(folded(extension_of(p2))),
{
}

} // verus!
