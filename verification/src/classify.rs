//! Classifies a source file name of the shape
//! `<version>_<kind>_<peripheral>.c|h` into its three parts, rejecting
//! extension modules and unrecognized kinds.

use vstd::prelude::*;

use crate::strutil::{
    ends_with_str, is_suffix, split_first_spec, split_once_char, str_eq,
};

verus! {

/// Which of the two supported vendor API layers a file belongs to.
#[derive(Clone, Copy, Debug, PartialEq, Eq, Structural)]
pub enum Kind {
    Hal,
    Ll,
}

/// Why a file name was rejected.
#[derive(Clone, Copy, Debug, PartialEq, Eq, Structural)]
pub enum ClassifyError {
    /// The name ends neither in `.c` nor in `.h`.
    BadExtension,
    /// The stem does not hold the two separators of `<version>_<kind>_<peripheral>`.
    MalformedName,
    /// The peripheral part ends in `_ex`: the file supplements a unit that is
    /// processed on its own, and must be skipped, not reported.
    ExtensionModule,
    /// The kind part is neither `hal` nor `ll`.
    UnknownKind,
}

/// The parsed meaning of an accepted file name.
pub struct FileClassification {
    pub version: String,
    pub kind: Kind,
    pub peripheral: String,
    pub is_extension: bool,
}

/// The mathematical model of a [`FileClassification`].
pub struct FileClassificationView {
    pub version: Seq<char>,
    pub kind: Kind,
    pub peripheral: Seq<char>,
    pub is_extension: bool,
}

impl View for FileClassification {
    type V = FileClassificationView;

    open spec fn view(&self) -> FileClassificationView {
        FileClassificationView {
            version: self.version@,
            kind: self.kind,
            peripheral: self.peripheral@,
            is_extension: self.is_extension,
        }
    }
}

/// The stem of `f` with a `.c` or `.h` extension removed, if one is there.
pub open spec fn strip_extension_spec(f: Seq<char>) -> Option<Seq<char>> {
    if is_suffix(".c"@, f) || is_suffix(".h"@, f) {
        Some(f.take(f.len() - 2))
    } else {
        None
    }
}

/// What classifying a file name yields, for every input.
pub open spec fn classify_spec(f: Seq<char>) -> Result<FileClassificationView, ClassifyError> {
    match strip_extension_spec(f) {
        None => Err(ClassifyError::BadExtension),
        Some(stem) => match split_first_spec(stem, '_') {
            None => Err(ClassifyError::MalformedName),
            Some(vr) => match split_first_spec(vr.1, '_') {
                None => Err(ClassifyError::MalformedName),
                Some(kp) => if is_suffix("_ex"@, kp.1) {
                    Err(ClassifyError::ExtensionModule)
                } else if kp.0 == "hal"@ {
                    Ok(FileClassificationView {
                        version: vr.0,
                        kind: Kind::Hal,
                        peripheral: kp.1,
                        is_extension: false,
                    })
                } else if kp.0 == "ll"@ {
                    Ok(FileClassificationView {
                        version: vr.0,
                        kind: Kind::Ll,
                        peripheral: kp.1,
                        is_extension: false,
                    })
                } else {
                    Err(ClassifyError::UnknownKind)
                },
            },
        },
    }
}

/// Parses a bare file name into `(version, kind, peripheral)`, or says
/// exactly why it is rejected.
pub fn classify(filename: &str) -> (r: Result<FileClassification, ClassifyError>)
    ensures
        match r {
            Ok(c) => classify_spec(filename@) == Ok::<FileClassificationView, ClassifyError>(c@),
            Err(e) => classify_spec(filename@) == Err::<FileClassificationView, ClassifyError>(e),
        },
{
    proof {
        reveal_strlit(".c");
        reveal_strlit(".h");
    }
    let n = filename.unicode_len();
    let stem: &str = if ends_with_str(filename, ".c") || ends_with_str(filename, ".h") {
        filename.substring_char(0, n - 2)
    } else {
        return Err(ClassifyError::BadExtension);
    };
    let (version, rest) = match split_once_char(stem, '_') {
        Some(p) => p,
        None => {
            return Err(ClassifyError::MalformedName);
        },
    };
    let (kind_text_part, peripheral) = match split_once_char(rest, '_') {
        Some(p) => p,
        None => {
            return Err(ClassifyError::MalformedName);
        },
    };
    if ends_with_str(peripheral, "_ex") {
        return Err(ClassifyError::ExtensionModule);
    }
    let kind: Kind = if str_eq(kind_text_part, "hal") {
        Kind::Hal
    } else if str_eq(kind_text_part, "ll") {
        Kind::Ll
    } else {
        return Err(ClassifyError::UnknownKind);
    };
    Ok(FileClassification {
        version: version.to_owned(),
        kind,
        peripheral: peripheral.to_owned(),
        is_extension: false,
    })
}

/// The text of a kind as it appears in file names and namespaces.
pub open spec fn kind_text(k: Kind) -> Seq<char> {
    match k {
        Kind::Hal => "hal"@,
        Kind::Ll => "ll"@,
    }
}

pub fn kind_str(k: Kind) -> (r: &'static str)
    ensures
        r@ == kind_text(k),
{
    match k {
        Kind::Hal => "hal",
        Kind::Ll => "ll",
    }
}

/// The stem of the file a classification came from.
pub open spec fn stem_spec(c: FileClassificationView) -> Seq<char> {
    c.version + "_"@ + kind_text(c.kind) + "_"@ + c.peripheral
}

/// The stem of the file a classification came from, rebuilt as text.
pub fn stem_string(c: &FileClassification) -> (r: String)
    ensures
        r@ == stem_spec(c@),
{
    let mut out = c.version.clone();
    out.append("_");
    out.append(kind_str(c.kind));
    out.append("_");
    out.append(c.peripheral.as_str());
    assert(out@ =~= stem_spec(c@));
    out
}

/// The name of the generated file: the input's stem with the extension
/// swapped for `.hpp`.
pub fn output_filename(c: &FileClassification) -> (r: String)
    ensures
        r@ == stem_spec(c@) + ".hpp"@,
{
    let mut out = stem_string(c);
    out.append(".hpp");
    out
}

} // verus!
