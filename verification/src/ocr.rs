//! The OCR fallback's command lines, and which rendered page images it reads and in what
//! order.
//!
//! `pdftoppm` renders the first pages of a document as PNG files into a fresh directory;
//! `tesseract` then reads each image.  Running them and listing the directory are the
//! shell's work.

use crate::backend::CommandOutput;
use crate::paths::{extension, has_extension};
use crate::speech::{utf8_lossy, utf8_lossy_text};
use crate::text::{
    lemma_name_le_total, lemma_name_le_transitive, name_le, names_in_order, names_sorted, str_chars,
    string_from_chars, string_views,
};
use vstd::prelude::*;

verus! {

broadcast use {vstd::string::group_string_axioms, vstd::seq_lib::group_to_multiset_ensures};

/// The `pdftoppm` arguments that render pages 1 to 3 of `pdf_path` in grayscale at 150
/// dpi as PNG files named after `prefix`.
pub open spec fn render_arguments(pdf_path: Seq<char>, prefix: Seq<char>) -> Seq<Seq<char>> {
    seq!["-f"@, "1"@, "-l"@, "3"@, "-r"@, "150"@, "-gray"@, "-png"@, pdf_path, prefix]
}

/// The `tesseract` arguments that read `image` as one uniform block of text and print the
/// text.
pub open spec fn recognize_arguments(image: Seq<char>) -> Seq<Seq<char>> {
    seq![image, "stdout"@, "--psm"@, "6"@]
}

/// Whether a file in the render directory is a page image: its extension is `png`.
pub open spec fn is_page_image(name: Seq<char>) -> bool {
    extension(name) == Some("png"@)
}

/// The page images among `names`, in their order.
pub open spec fn page_images(names: Seq<Seq<char>>) -> Seq<Seq<char>>
    decreases names.len(),
{
    if names.len() == 0 {
        Seq::empty()
    } else {
        let rest = page_images(names.drop_last());
        if is_page_image(names.last()) {
            rest.push(names.last())
        } else {
            rest
        }
    }
}

/// The `pdftoppm` arguments for rendering the first pages of `pdf_path`.
pub fn render_command_args(pdf_path: &str, prefix: &str) -> (args: Vec<String>)
    ensures
        string_views(args@) == render_arguments(pdf_path@, prefix@),
{
    let mut args: Vec<String> = Vec::new();
    args.push("-f".to_string());
    args.push("1".to_string());
    args.push("-l".to_string());
    args.push("3".to_string());
    args.push("-r".to_string());
    args.push("150".to_string());
    args.push("-gray".to_string());
    args.push("-png".to_string());
    args.push(string_from_chars(&str_chars(pdf_path)));
    args.push(string_from_chars(&str_chars(prefix)));
    assert(string_views(args@) =~= render_arguments(pdf_path@, prefix@));
    args
}

/// The `tesseract` arguments for reading `image`.
pub fn recognize_command_args(image: &str) -> (args: Vec<String>)
    ensures
        string_views(args@) == recognize_arguments(image@),
{
    let mut args: Vec<String> = Vec::new();
    args.push(string_from_chars(&str_chars(image)));
    args.push("stdout".to_string());
    args.push("--psm".to_string());
    args.push("6".to_string());
    assert(string_views(args@) =~= recognize_arguments(image@));
    args
}

/// The text `tesseract` recognized in one page image: its standard output when the run
/// succeeded, nothing when it failed or could not start.
pub fn recognized_text(run: Result<CommandOutput, String>) -> (text: Option<String>)
    ensures
        match run {
            Ok(out) => if out.success {
                text matches Some(t) && t@ == utf8_lossy_text(out.stdout@)
            } else {
                text is None
            },
            Err(_) => text is None,
        },
{
    match run {
        Ok(out) => {
            if out.success {
                Some(utf8_lossy(out.stdout.as_slice()))
            } else {
                None
            }
        },
        Err(_) => None,
    }
}

/// The page images among the file names of the render directory, in name order: the
/// order in which the pages were rendered.
pub fn page_image_names(names: &[String]) -> (images: Vec<String>)
    ensures
        names_sorted(string_views(images@)),
        string_views(images@).to_multiset() == page_images(string_views(names@)).to_multiset(),
{
    let mut images: Vec<String> = Vec::new();
    let mut i: usize = 0;
    assert(string_views(names@).take(0) =~= Seq::<Seq<char>>::empty());
    assert(string_views(images@) =~= Seq::<Seq<char>>::empty());
    while i < names.len()
        invariant
            i <= names.len(),
            names_sorted(string_views(images@)),
            string_views(images@).to_multiset() == page_images(
                string_views(names@).take(i as int),
            ).to_multiset(),
        decreases names.len() - i,
    {
        let ghost all = string_views(names@);
        assert(all.take(i + 1).drop_last() =~= all.take(i as int));
        let name = &names[i];
        if has_extension(name.as_str(), "png") {
            let mut pos: usize = 0;
            while pos < images.len() && names_in_order(images[pos].as_str(), name.as_str())
                invariant
                    pos <= images.len(),
                    forall|k: int| 0 <= k < pos ==> name_le(#[trigger] images@[k]@, name@),
                decreases images.len() - pos,
            {
                pos = pos + 1;
            }
            let ghost before = string_views(images@);
            proof {
                if pos < images.len() {
                    lemma_name_le_total(images@[pos as int]@, name@);
                }
                assert forall|k: int| pos <= k < before.len() implies name_le(
                    name@,
                    #[trigger] before[k],
                ) by {
                    if k > pos {
                        assert(name_le(before[pos as int], before[k]));
                        lemma_name_le_transitive(name@, before[pos as int], before[k]);
                    }
                }
                vstd::seq_lib::to_multiset_insert(before, pos as int, name@);
            }
            images.insert(pos, name.clone());
            assert(string_views(images@) =~= before.insert(pos as int, name@));
            assert(names_sorted(string_views(images@)))
                by {
                let after = string_views(images@);
                assert forall|p: int, q: int| 0 <= p < q < after.len() implies name_le(
                    after[p],
                    after[q],
                ) by {
                    if q < pos {
                    } else if q == pos {
                    } else if p < pos {
                        lemma_name_le_transitive(before[p], name@, before[q - 1]);
                    } else if p == pos {
                    } else {
                        assert(name_le(before[p - 1], before[q - 1]));
                    }
                }
            }
        }
        i = i + 1;
    }
    assert(string_views(names@).take(names.len() as int) =~= string_views(names@));
    images
}

} // verus!
