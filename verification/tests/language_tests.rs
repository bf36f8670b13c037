use contextpad::language::detect_language_from_path;

fn check(path: &str, tag: &str) {
    assert_eq!(detect_language_from_path(path), tag.to_string());
}

#[test]
fn known_extensions_map_to_their_tags() {
    check("notes.md", "markdown");
    check("notes.markdown", "markdown");
    check("readme.txt", "text");
    check("data.json", "json");
    check("data.jsonc", "json");
    check("conf.yaml", "yaml");
    check("conf.yml", "yaml");
    check("table.csv", "csv");
    check("app.js", "javascript");
    check("app.jsx", "javascript");
    check("app.mjs", "javascript");
    check("app.cjs", "javascript");
    check("app.ts", "typescript");
    check("app.tsx", "typescript");
    check("tool.py", "python");
    check("tool.pyw", "python");
    check("main.rs", "rust");
    check("page.html", "html");
    check("page.htm", "html");
    check("style.css", "css");
    check("style.scss", "css");
    check("style.sass", "css");
    check("style.less", "css");
    check("feed.xml", "xml");
    check("conf.toml", "toml");
    check("run.sh", "shell");
    check("run.bash", "shell");
    check("prog.c", "c");
    check("prog.h", "c");
    check("prog.cpp", "cpp");
    check("prog.cc", "cpp");
    check("prog.cxx", "cpp");
    check("prog.hpp", "cpp");
    check("App.java", "java");
    check("main.go", "go");
    check("tool.rb", "ruby");
    check("index.php", "php");
    check("app.swift", "swift");
    check("App.kt", "kotlin");
    check("build.kts", "kotlin");
    check("query.sql", "sql");
}

#[test]
fn extension_matching_is_case_insensitive() {
    check("NOTES.MD", "markdown");
    check("main.RS", "rust");
    check("Tool.Py", "python");
    check("page.HtMl", "html");
}

#[test]
fn unknown_or_missing_extensions_yield_text() {
    check("archive.gz", "text");
    check("binary.exe", "text");
    check("noextension", "text");
    check("", "text");
    check("/some/dir/", "text");
    check("trailing.", "text");
}

#[test]
fn dotfiles_have_no_extension() {
    check(".profile", "text");
    check("/home/user/.bashrc", "text");
}

#[test]
fn only_the_final_segment_counts() {
    check("/srv/www.html/readme", "text");
    check("/srv/app.js/main.py", "python");
}
