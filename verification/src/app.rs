//! Where an invoice's output file goes.
use crate::input::{
    path_join, path_parent, path_with_extension, std_path_join, std_path_parent_of,
    std_path_with_extension,
};
use vstd::prelude::*;

verus! {

/// The directory that output goes to: the output directory if one is given,
/// else the YAML file's parent (`.` where it has none).
pub open spec fn output_directory(yaml_path: Seq<char>, output_dir: Option<Seq<char>>) -> Seq<
    char,
> {
    match output_dir {
        Some(dir) => dir,
        None => match path_parent(yaml_path) {
            Some(parent) => parent,
            None => "."@,
        },
    }
}

/// Output goes to the output directory when one is given, whatever the YAML
/// file's place; without one, next to the YAML file, or in `.` where the path
/// has no parent.
pub proof fn lemma_output_directory_choice(yaml_path: Seq<char>, dir: Seq<char>)
    ensures
        output_directory(yaml_path, Some(dir)) == dir,
        path_parent(yaml_path) matches Some(p) ==> output_directory(yaml_path, None) == p,
        path_parent(yaml_path) is None ==> output_directory(yaml_path, None) == "."@,
{
}

/// The output file's path: `filename` in the output directory, or next to the
/// YAML file when no output directory is given.
pub fn resolve_output_path(yaml_path: &str, output_dir: Option<&str>, filename: &str) -> (r:
    String)
    ensures
        r@ == path_join(
            output_directory(
                yaml_path@,
                match output_dir {
                    Some(d) => Some(d@),
                    None => None,
                },
            ),
            filename@,
        ),
{
    match output_dir {
        Some(dir) => std_path_join(dir, filename),
        None => match std_path_parent_of(yaml_path) {
            Some(parent) => std_path_join(parent.as_str(), filename),
            None => std_path_join(".", filename),
        },
    }
}

/// The name of the PDF output beside an HTML output: the same name with the
/// extension `pdf`.
pub fn pdf_file_name(html_file_name: &str) -> (r: String)
    ensures
        r@ == path_with_extension(html_file_name@, "pdf"@),
{
    proof {
        reveal_strlit("pdf");
    }
    std_path_with_extension(html_file_name, "pdf")
}

} // verus!
