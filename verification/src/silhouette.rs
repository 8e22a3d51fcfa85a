//! Wind silhouette profiles: the data of a lateral (X-Z) ship outline.
//!
//! The outline's points are binary64 bit patterns; the areas, centroids and
//! clipping at a waterline are computed by callers on the decoded numbers.

use vstd::prelude::*;

verus! {

/// A 2D silhouette profile in the X-Z plane (ship lateral view), used for
/// wind heeling moments.
#[derive(Debug)]
pub struct Silhouette {
    /// Points [x, y, z] of the contour (binary64 bit patterns); y is 0.
    points: Vec<[u64; 3]>,
    /// Name of the silhouette (from filename or user-defined).
    name: String,
}

impl Clone for Silhouette {
    /// A copy with the same points and name.
    fn clone(&self) -> (s: Self)
        ensures
            s.point_seq() == self.point_seq(),
            s.name_text() == self.name_text(),
    {
        let mut points: Vec<[u64; 3]> = Vec::new();
        let mut k: usize = 0;
        while k < self.points.len()
            invariant
                k <= self.points@.len(),
                points@ == self.points@.subrange(0, k as int),
            decreases self.points@.len() - k,
        {
            points.push(self.points[k]);
            k = k + 1;
        }
        Silhouette { points, name: self.name.clone() }
    }
}

impl Silhouette {
    /// The contour's points, in order.
    pub closed spec fn point_seq(&self) -> Seq<[u64; 3]> {
        self.points@
    }

    /// The silhouette's name.
    pub closed spec fn name_text(&self) -> Seq<char> {
        self.name@
    }

    /// Creates a silhouette from its contour points and name.
    pub fn new(points: Vec<[u64; 3]>, name: String) -> (s: Self)
        ensures
            s.point_seq() == points@,
            s.name_text() == name@,
    {
        Silhouette { points, name }
    }

    /// Returns the silhouette name.
    pub fn name(&self) -> (r: &str)
        ensures
            r@ == self.name_text(),
    {
        self.name.as_str()
    }

    /// Sets the silhouette name.
    pub fn set_name(&mut self, name: &str)
        ensures
            final(self).name_text() == name@,
            final(self).point_seq() == old(self).point_seq(),
    {
        self.name = name.to_owned();
    }

    /// Returns the points defining the silhouette.
    pub fn points(&self) -> (r: &[[u64; 3]])
        ensures
            r@ == self.point_seq(),
    {
        self.points.as_slice()
    }

    /// Returns the number of points.
    pub fn num_points(&self) -> (n: usize)
        ensures
            n == self.point_seq().len(),
    {
        self.points.len()
    }
}

/// The file formats a silhouette is read from.
#[derive(Debug, Clone, Copy, PartialEq, Eq, Structural)]
pub enum SilhouetteFormat {
    /// A DXF drawing (first LWPOLYLINE or POLYLINE entity).
    Dxf,
    /// A VTK file (.vtk, .vtp or .vtu; first polyline).
    Vtk,
    /// A CSV or TXT point list.
    Csv,
}

/// The lower-case form of a text, as `str::to_lowercase` gives it.
pub uninterp spec fn lowercase(text: Seq<char>) -> Seq<char>;

/// Calls `str::to_lowercase`; claims only that the result is the lower-case
/// form `lowercase` of the argument, which depends on the argument alone.
#[verifier::external_body]
fn to_lowercase(text: &str) -> (r: String)
    ensures
        r@ == lowercase(text@),
{
    text.to_lowercase()
}

/// The format that a lower-case file extension designates.
pub open spec fn format_of(extension: Seq<char>) -> Option<SilhouetteFormat> {
    if extension == "dxf"@ {
        Some(SilhouetteFormat::Dxf)
    } else if extension == "vtk"@ || extension == "vtp"@ || extension == "vtu"@ {
        Some(SilhouetteFormat::Vtk)
    } else if extension == "csv"@ || extension == "txt"@ {
        Some(SilhouetteFormat::Csv)
    } else {
        None
    }
}

/// Exactly six lower-case extensions designate a format: `dxf` the DXF
/// format, `vtk`, `vtp` and `vtu` the VTK format, `csv` and `txt` a point
/// list; every other extension designates none.
pub proof fn format_of_extensions(extension: Seq<char>)
    ensures
        format_of(extension) == Some(SilhouetteFormat::Dxf) <==> extension == "dxf"@,
        format_of(extension) == Some(SilhouetteFormat::Vtk) <==> (extension == "vtk"@ || extension
            == "vtp"@ || extension == "vtu"@),
        format_of(extension) == Some(SilhouetteFormat::Csv) <==> (extension == "csv"@ || extension
            == "txt"@),
        format_of(extension) is None <==> !(extension == "dxf"@ || extension == "vtk"@ || extension
            == "vtp"@ || extension == "vtu"@ || extension == "csv"@ || extension == "txt"@),
{
    reveal_strlit("dxf");
    reveal_strlit("vtk");
    reveal_strlit("vtp");
    reveal_strlit("vtu");
    reveal_strlit("csv");
    reveal_strlit("txt");
    assert("vtk"@[0] != "dxf"@[0]);
    assert("vtp"@[0] != "dxf"@[0]);
    assert("vtu"@[0] != "dxf"@[0]);
    assert("csv"@[0] != "dxf"@[0]);
    assert("txt"@[0] != "dxf"@[0]);
    assert("csv"@[0] != "vtk"@[0]);
    assert("csv"@[0] != "vtp"@[0]);
    assert("csv"@[0] != "vtu"@[0]);
    assert("txt"@[0] != "vtk"@[0]);
    assert("txt"@[0] != "vtp"@[0]);
    assert("txt"@[0] != "vtu"@[0]);
}

/// The format that the lower-case extension `extension` designates; `None`
/// for an unsupported extension.
pub fn format_for_lowercase_extension(extension: &str) -> (r: Option<SilhouetteFormat>)
    ensures
        r == format_of(extension@),
        r == Some(SilhouetteFormat::Dxf) <==> extension@ == "dxf"@,
        r == Some(SilhouetteFormat::Vtk) <==> (extension@ == "vtk"@ || extension@ == "vtp"@
            || extension@ == "vtu"@),
        r == Some(SilhouetteFormat::Csv) <==> (extension@ == "csv"@ || extension@ == "txt"@),
        r is None <==> !(extension@ == "dxf"@ || extension@ == "vtk"@ || extension@ == "vtp"@
            || extension@ == "vtu"@ || extension@ == "csv"@ || extension@ == "txt"@),
{
    proof {
        format_of_extensions(extension@);
    }
    let ext = extension.to_owned();
    if ext == "dxf".to_owned() {
        Some(SilhouetteFormat::Dxf)
    } else if ext == "vtk".to_owned() || ext == "vtp".to_owned() || ext == "vtu".to_owned() {
        Some(SilhouetteFormat::Vtk)
    } else if ext == "csv".to_owned() || ext == "txt".to_owned() {
        Some(SilhouetteFormat::Csv)
    } else {
        None
    }
}

/// The format of a silhouette file with the given extension, compared
/// without regard to case; `None` for an unsupported extension.
pub fn format_for_extension(extension: &str) -> (r: Option<SilhouetteFormat>)
    ensures
        r == format_of(lowercase(extension@)),
        r == Some(SilhouetteFormat::Dxf) <==> lowercase(extension@) == "dxf"@,
        r == Some(SilhouetteFormat::Vtk) <==> (lowercase(extension@) == "vtk"@ || lowercase(
            extension@,
        ) == "vtp"@ || lowercase(extension@) == "vtu"@),
        r == Some(SilhouetteFormat::Csv) <==> (lowercase(extension@) == "csv"@ || lowercase(
            extension@,
        ) == "txt"@),
        r is None <==> !(lowercase(extension@) == "dxf"@ || lowercase(extension@) == "vtk"@
            || lowercase(extension@) == "vtp"@ || lowercase(extension@) == "vtu"@ || lowercase(
            extension@,
        ) == "csv"@ || lowercase(extension@) == "txt"@),
{
    let ext = to_lowercase(extension);
    format_for_lowercase_extension(ext.as_str())
}

} // verus!
