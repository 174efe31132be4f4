use findr::path::base_name;
use std::path::Path;

#[test]
fn base_name_is_the_last_component() {
    assert_eq!(base_name("a.txt"), "a.txt");
    assert_eq!(base_name("sub/b.csv"), "b.csv");
    assert_eq!(base_name("./a.txt"), "a.txt");
    assert_eq!(base_name("/usr/lib/libc.so"), "libc.so");
    assert_eq!(base_name("../up/file"), "file");
    assert_eq!(base_name("a//b"), "b");
}

#[test]
fn base_name_skips_separators_at_the_end() {
    assert_eq!(base_name("sub/"), "sub");
    assert_eq!(base_name("a/b///"), "b");
    assert_eq!(base_name("/tmp/"), "tmp");
}

#[test]
fn base_name_skips_a_dot_component_at_the_end() {
    assert_eq!(base_name("a/b/."), "b");
    assert_eq!(base_name("a/b/./"), "b");
    assert_eq!(base_name("a/././/."), "a");
}

#[test]
fn base_name_keeps_names_that_begin_or_end_with_dots() {
    assert_eq!(base_name(".hidden"), ".hidden");
    assert_eq!(base_name("dir/.hidden"), ".hidden");
    assert_eq!(base_name("dir/..."), "...");
    assert_eq!(base_name("dir/..a"), "..a");
    assert_eq!(base_name("dir/a."), "a.");
    assert_eq!(base_name("dir/a.."), "a..");
    assert_eq!(base_name("a."), "a.");
}

#[test]
fn base_name_falls_back_to_the_whole_path() {
    assert_eq!(base_name("."), ".");
    assert_eq!(base_name("./"), "./");
    assert_eq!(base_name(".."), "..");
    assert_eq!(base_name("../"), "../");
    assert_eq!(base_name("a/.."), "a/..");
    assert_eq!(base_name("a/../"), "a/../");
    assert_eq!(base_name("/"), "/");
    assert_eq!(base_name("//"), "//");
    assert_eq!(base_name("/."), "/.");
    assert_eq!(base_name("./."), "./.");
    assert_eq!(base_name(""), "");
}

#[test]
fn base_name_counts_characters_not_bytes() {
    assert_eq!(base_name("données/été.txt"), "été.txt");
    assert_eq!(base_name("目录/文件/"), "文件");
    assert_eq!(base_name("é/."), "é");
}

#[test]
fn base_name_agrees_with_the_standard_library() {
    let parts = ["", "/", ".", "..", "a", "b.c", ".h", "a.", "//", "/.", "./", "é"];
    for first in parts {
        for second in parts {
            for third in parts {
                for fourth in parts {
                    let path = format!("{}{}{}{}", first, second, third, fourth);
                    let expected = match Path::new(&path).file_name() {
                        Some(name) => name.to_str().unwrap().to_string(),
                        None => path.clone(),
                    };
                    assert_eq!(base_name(&path), expected, "path {:?}", path);
                }
            }
        }
    }
}
