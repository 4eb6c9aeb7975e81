//! Where a screenshot is written.

use crate::decimal::{decimal, decimal_string, lemma_decimal_is_digits};
use crate::format::{image_format_of, lemma_format_by_suffix, ImageFormat};
use crate::host::{canonicalize_url, host_of, lemma_host_is_slash_free_prefix};
use crate::path::{
    extension_of, file_name_of, is_plain_name, join, joined, lemma_file_name_of_joined,
};
use vstd::prelude::*;
use vstd::string::StringExecFns;

verus! {

/// What the user said about the output.
#[derive(Debug)]
pub enum OutputTarget {
    /// Nothing: the screenshot goes to the working directory.
    Unspecified,
    /// A directory that exists: the screenshot goes into it.
    Directory(String),
    /// Any other path: the screenshot is that file.
    File(String),
}

/// What an [`OutputTarget`] says, each path as its sequence of characters.
pub enum TargetView {
    Unspecified,
    Directory(Seq<char>),
    File(Seq<char>),
}

impl View for OutputTarget {
    type V = TargetView;

    open spec fn view(&self) -> TargetView {
        match self {
            OutputTarget::Unspecified => TargetView::Unspecified,
            OutputTarget::Directory(dir) => TargetView::Directory(dir@),
            OutputTarget::File(path) => TargetView::File(path@),
        }
    }
}

impl OutputTarget {
    /// Sorts what the user said: no path, a path that was found to be a
    /// directory, or any other path.
    pub fn classify(output: Option<String>, is_directory: bool) -> (target: OutputTarget)
        ensures
            target == (match output {
                None => OutputTarget::Unspecified,
                Some(path) => if is_directory {
                    OutputTarget::Directory(path)
                } else {
                    OutputTarget::File(path)
                },
            }),
    {
        match output {
            None => OutputTarget::Unspecified,
            Some(path) => if is_directory {
                OutputTarget::Directory(path)
            } else {
                OutputTarget::File(path)
            },
        }
    }
}

/// The name given to a screenshot for which the user chose none: host,
/// `-`, width, `x`, height, and `.png`.
pub open spec fn default_name(url: Seq<char>, width: nat, height: nat) -> Seq<char> {
    host_of(url) + "-"@ + decimal(width) + "x"@ + decimal(height) + ".png"@
}

/// The path of the file that the screenshot is written to.
pub open spec fn output_path_of(
    target: TargetView,
    url: Seq<char>,
    width: nat,
    height: nat,
) -> Seq<char> {
    match target {
        TargetView::Unspecified => default_name(url, width, height),
        TargetView::Directory(dir) => joined(dir, default_name(url, width, height)),
        TargetView::File(path) => path,
    }
}

/// The name of the screenshot of `url` at `width` by `height` pixels.
pub fn default_file_name(url: &str, width: u32, height: u32) -> (name: String)
    ensures
        name@ == default_name(url@, width as nat, height as nat),
{
    let mut name = String::from_str(canonicalize_url(url));
    name.append("-");
    name.append(decimal_string(width).as_str());
    name.append("x");
    name.append(decimal_string(height).as_str());
    name.append(".png");
    name
}

/// The path of the file that the screenshot of `url` is written to.
pub fn resolve_output_path(
    target: OutputTarget,
    url: &str,
    width: u32,
    height: u32,
) -> (path: String)
    ensures
        path@ == output_path_of(target@, url@, width as nat, height as nat),
{
    match target {
        OutputTarget::Unspecified => default_file_name(url, width, height),
        OutputTarget::Directory(dir) => {
            let name = default_file_name(url, width, height);
            join(dir.as_str(), name.as_str())
        },
        OutputTarget::File(path) => path,
    }
}

/// Two texts without `c` make a text without `c`.
proof fn lemma_concat_without(a: Seq<char>, b: Seq<char>, c: char)
    requires
        !a.contains(c),
        !b.contains(c),
    ensures
        !(a + b).contains(c),
{
    let ab = a + b;
    assert forall|i: int| 0 <= i < ab.len() implies ab[i] != c by {
        if i >= a.len() {
            assert(ab[i] == b[i - a.len()]);
        }
    }
}

/// A default name is one component that ends in `.png`, and has at least
/// eight characters more than the host.
pub proof fn lemma_default_name_is_plain(url: Seq<char>, width: nat, height: nat)
    ensures
        is_plain_name(default_name(url, width, height)),
        ".png"@.is_suffix_of(default_name(url, width, height)),
        default_name(url, width, height).len() >= host_of(url).len() + 8,
{
    reveal_strlit("-");
    reveal_strlit("x");
    reveal_strlit(".png");
    let name = default_name(url, width, height);
    lemma_host_is_slash_free_prefix(url);
    lemma_decimal_is_digits(width);
    lemma_decimal_is_digits(height);
    lemma_concat_without(host_of(url), "-"@, '/');
    lemma_concat_without(host_of(url) + "-"@, decimal(width), '/');
    lemma_concat_without(host_of(url) + "-"@ + decimal(width), "x"@, '/');
    lemma_concat_without(host_of(url) + "-"@ + decimal(width) + "x"@, decimal(height), '/');
    lemma_concat_without(
        host_of(url) + "-"@ + decimal(width) + "x"@ + decimal(height),
        ".png"@,
        '/',
    );
    assert(name.subrange(name.len() - 4, name.len() as int) =~= ".png"@);
}

/// Into whatever directory a screenshot without a chosen name goes, its file
/// name is the default name.
pub proof fn lemma_directory_keeps_default_name(
    dir: Seq<char>,
    url: Seq<char>,
    width: nat,
    height: nat,
)
    ensures
        file_name_of(output_path_of(TargetView::Directory(dir), url, width, height)) == Some(
            default_name(url, width, height),
        ),
        file_name_of(output_path_of(TargetView::Unspecified, url, width, height)) == Some(
            default_name(url, width, height),
        ),
{
    let name = default_name(url, width, height);
    lemma_default_name_is_plain(url, width, height);
    lemma_file_name_of_joined(dir, name);
    lemma_file_name_of_joined(Seq::empty(), name);
}

/// A screenshot for which the user chose no file is written as PNG.
pub proof fn lemma_unnamed_output_is_png(
    target: TargetView,
    url: Seq<char>,
    width: nat,
    height: nat,
)
    requires
        !(target is File),
    ensures
        image_format_of(output_path_of(target, url, width, height)) == ImageFormat::Png,
{
    reveal_strlit(".png");
    let name = default_name(url, width, height);
    let stem = host_of(url) + "-"@ + decimal(width) + "x"@ + decimal(height);
    lemma_default_name_is_plain(url, width, height);
    lemma_format_by_suffix(stem);
    assert(extension_of(name) == extension_of(output_path_of(target, url, width, height))) by {
        lemma_file_name_of_joined(Seq::empty(), name);
        if let TargetView::Directory(dir) = target {
            lemma_file_name_of_joined(dir, name);
        }
    }
}

} // verus!
