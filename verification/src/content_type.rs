//! The MIME resolver: maps a filename extension, case-insensitively, to a
//! content-type string.

use vstd::prelude::*;
use crate::text::{chars_eq_str, chars_of, lemma_rfind_props, rfind_char, seq_lower, spec_rfind_before, subvec, vec_lower};

verus! {

/// A content type that the server can emit.
#[derive(Copy, Clone, Debug, PartialEq, Eq, Structural)]
#[allow(clippy::upper_case_acronyms)]
pub enum ContentType {
    Binary,
    BZip2,
    CSS,
    GIF,
    GZip,
    HTML,
    JavaScript,
    JPEG,
    PDF,
    PNG,
    Tar,
    Text,
    ZIP,
    XZ,
}

/// The content type registered for an extension, compared without regard
/// to ASCII letter case.
pub open spec fn spec_type_of_extension(e: Seq<char>) -> Option<ContentType> {
    let l = seq_lower(e);
    if l == "bin"@ || l == "dat"@ || l == "exe"@ {
        Some(ContentType::Binary)
    } else if l == "bz2"@ || l == "tbz2"@ {
        Some(ContentType::BZip2)
    } else if l == "css"@ {
        Some(ContentType::CSS)
    } else if l == "gif"@ {
        Some(ContentType::GIF)
    } else if l == "gz"@ || l == "tgz"@ {
        Some(ContentType::GZip)
    } else if l == "htm"@ || l == "html"@ {
        Some(ContentType::HTML)
    } else if l == "js"@ {
        Some(ContentType::JavaScript)
    } else if l == "jpe"@ || l == "jpeg"@ || l == "jpg"@ {
        Some(ContentType::JPEG)
    } else if l == "pdf"@ {
        Some(ContentType::PDF)
    } else if l == "png"@ {
        Some(ContentType::PNG)
    } else if l == "tar"@ {
        Some(ContentType::Tar)
    } else if l == "txt"@ {
        Some(ContentType::Text)
    } else if l == "zip"@ {
        Some(ContentType::ZIP)
    } else if l == "xz"@ || l == "txz"@ {
        Some(ContentType::XZ)
    } else {
        None
    }
}

/// The extension of the file named by the path: the part of the last
/// path component after its last dot, none when the component holds no
/// dot or begins with its only dot.
pub open spec fn spec_extension(p: Seq<char>) -> Option<Seq<char>> {
    let name = match spec_rfind_before(p, '/', p.len() as int) {
        Some(i) => p.subrange(i + 1, p.len() as int),
        None => p,
    };
    match spec_rfind_before(name, '.', name.len() as int) {
        Some(j) => if j == 0 {
            None
        } else {
            Some(name.subrange(j + 1, name.len() as int))
        },
        None => None,
    }
}

impl ContentType {
    /// The content type registered for the extension of the file that
    /// `path` names; path components are separated by `/`.
    pub fn from_path(path: &str) -> (r: Option<ContentType>)
        ensures
            r == match spec_extension(path@) {
                Some(e) => spec_type_of_extension(e),
                None => None::<ContentType>,
            },
    {
        let chars = chars_of(path);
        proof {
            lemma_rfind_props(chars@, '/', chars@.len() as int);
        }
        let name = match rfind_char(&chars, '/') {
            Some(i) => subvec(&chars, i + 1, chars.len()),
            None => subvec(&chars, 0, chars.len()),
        };
        proof {
            assert(chars@.subrange(0, chars@.len() as int) =~= chars@);
            lemma_rfind_props(name@, '.', name@.len() as int);
        }
        match rfind_char(&name, '.') {
            Some(j) => {
                if j == 0 {
                    None
                } else {
                    let ext = subvec(&name, j + 1, name.len());
                    Self::from_extension(&ext)
                }
            },
            None => None,
        }
    }

    /// The content type registered for an extension.
    pub fn from_extension(ext: &Vec<char>) -> (r: Option<ContentType>)
        ensures
            r == spec_type_of_extension(ext@),
    {
        let l = vec_lower(ext);
        if chars_eq_str(&l, "bin") || chars_eq_str(&l, "dat") || chars_eq_str(&l, "exe") {
            Some(ContentType::Binary)
        } else if chars_eq_str(&l, "bz2") || chars_eq_str(&l, "tbz2") {
            Some(ContentType::BZip2)
        } else if chars_eq_str(&l, "css") {
            Some(ContentType::CSS)
        } else if chars_eq_str(&l, "gif") {
            Some(ContentType::GIF)
        } else if chars_eq_str(&l, "gz") || chars_eq_str(&l, "tgz") {
            Some(ContentType::GZip)
        } else if chars_eq_str(&l, "htm") || chars_eq_str(&l, "html") {
            Some(ContentType::HTML)
        } else if chars_eq_str(&l, "js") {
            Some(ContentType::JavaScript)
        } else if chars_eq_str(&l, "jpe") || chars_eq_str(&l, "jpeg") || chars_eq_str(&l, "jpg") {
            Some(ContentType::JPEG)
        } else if chars_eq_str(&l, "pdf") {
            Some(ContentType::PDF)
        } else if chars_eq_str(&l, "png") {
            Some(ContentType::PNG)
        } else if chars_eq_str(&l, "tar") {
            Some(ContentType::Tar)
        } else if chars_eq_str(&l, "txt") {
            Some(ContentType::Text)
        } else if chars_eq_str(&l, "zip") {
            Some(ContentType::ZIP)
        } else if chars_eq_str(&l, "xz") || chars_eq_str(&l, "txz") {
            Some(ContentType::XZ)
        } else {
            None
        }
    }

    /// The content-type string of this content type.
    pub open spec fn spec_str(self) -> Seq<char> {
        match self {
            ContentType::Binary => "application/octet-stream"@,
            ContentType::CSS => "text/css"@,
            ContentType::GIF => "image/gif"@,
            ContentType::GZip => "application/gzip"@,
            ContentType::BZip2 => "application/x-bzip2"@,
            ContentType::HTML => "text/html"@,
            ContentType::JavaScript => "text/javascript"@,
            ContentType::JPEG => "image/jpg"@,
            ContentType::PDF => "application/pdf"@,
            ContentType::PNG => "image/png"@,
            ContentType::Tar => "application/x-tar"@,
            ContentType::Text => "text/plain"@,
            ContentType::ZIP => "application/zip"@,
            ContentType::XZ => "application/x-xz"@,
        }
    }

    /// The content-type string that is written into the response header.
    pub fn as_str(&self) -> (r: &'static str)
        ensures
            r@ == self.spec_str(),
    {
        match self {
            ContentType::Binary => "application/octet-stream",
            ContentType::CSS => "text/css",
            ContentType::GIF => "image/gif",
            ContentType::GZip => "application/gzip",
            ContentType::BZip2 => "application/x-bzip2",
            ContentType::HTML => "text/html",
            ContentType::JavaScript => "text/javascript",
            ContentType::JPEG => "image/jpg",
            ContentType::PDF => "application/pdf",
            ContentType::PNG => "image/png",
            ContentType::Tar => "application/x-tar",
            ContentType::Text => "text/plain",
            ContentType::ZIP => "application/zip",
            ContentType::XZ => "application/x-xz",
        }
    }
}

} // verus!
