//! Locations for a query: a point as a latitude and longitude pair, an area
//! as a bounding box with a grid resolution. Coordinates are held as the
//! decimal text that goes into the query verbatim, so rendering is exact.
use vstd::prelude::*;
use crate::text::seq_join;

verus! {

/// A point in geographical space: latitude and longitude as decimal text.
#[derive(Clone, Debug, PartialEq)]
pub struct Point {
    pub lat: String,
    pub lon: String,
}

/// The rendering `lat,lon` of a point.
pub open spec fn point_render(p: Point) -> Seq<char> {
    p.lat@ + seq![','] + p.lon@
}

impl Point {
    /// Renders the point as `lat,lon`.
    pub fn as_string(&self) -> (res: String)
        ensures
            res@ == point_render(*self),
    {
        proof {
            reveal_strlit(",");
        }
        let mut res = self.lat.clone();
        res.append(",");
        res.append(self.lon.as_str());
        assert(res@ =~= point_render(*self));
        res
    }
}

/// An area of interest: a bounding box given by its extreme coordinates and
/// the grid resolution along each axis, all as decimal text.
#[derive(Clone, Debug, PartialEq)]
pub struct BBox {
    pub lat_min: String,
    pub lat_max: String,
    pub lon_min: String,
    pub lon_max: String,
    pub lat_res: String,
    pub lon_res: String,
}

/// The rendering of a bounding box: north-west corner, south-east corner,
/// then the resolution, whatever order the fields are named in.
pub open spec fn bbox_render(b: BBox) -> Seq<char> {
    b.lat_max@ + seq![','] + b.lon_min@ + seq!['_'] + b.lat_min@ + seq![','] + b.lon_max@
        + seq![':'] + b.lat_res@ + seq![','] + b.lon_res@
}

impl BBox {
    /// Renders the box as `lat_max,lon_min_lat_min,lon_max:lat_res,lon_res`.
    pub fn as_string(&self) -> (res: String)
        ensures
            res@ == bbox_render(*self),
    {
        proof {
            reveal_strlit(",");
            reveal_strlit("_");
            reveal_strlit(":");
        }
        let mut res = self.lat_max.clone();
        res.append(",");
        res.append(self.lon_min.as_str());
        res.append("_");
        res.append(self.lat_min.as_str());
        res.append(",");
        res.append(self.lon_max.as_str());
        res.append(":");
        res.append(self.lat_res.as_str());
        res.append(",");
        res.append(self.lon_res.as_str());
        assert(res@ =~= bbox_render(*self));
        res
    }

    /// Renders only the corners, `lat_max,lon_min_lat_min,lon_max`, the form
    /// the lightning endpoint takes.
    pub fn corners_string(&self) -> (res: String)
        ensures
            res@ == bbox_corners_render(*self),
    {
        proof {
            reveal_strlit(",");
            reveal_strlit("_");
        }
        let mut res = self.lat_max.clone();
        res.append(",");
        res.append(self.lon_min.as_str());
        res.append("_");
        res.append(self.lat_min.as_str());
        res.append(",");
        res.append(self.lon_max.as_str());
        assert(res@ =~= bbox_corners_render(*self));
        res
    }
}

/// The rendering of a bounding box without its resolution.
pub open spec fn bbox_corners_render(b: BBox) -> Seq<char> {
    b.lat_max@ + seq![','] + b.lon_min@ + seq!['_'] + b.lat_min@ + seq![','] + b.lon_max@
}

/// The renderings of a list of points.
pub open spec fn points_render(ps: Seq<Point>) -> Seq<Seq<char>> {
    ps.map_values(|p: Point| point_render(p))
}

/// Renders a list of points as their renderings joined with `+`.
pub fn points_to_str(coords: &Vec<Point>) -> (res: String)
    ensures
        res@ == seq_join(points_render(coords@), seq!['+']),
{
    let mut rendered: Vec<String> = Vec::new();
    for i in 0..coords.len()
        invariant
            rendered.deep_view() == points_render(coords@.take(i as int)),
    {
        let ghost old_dv = rendered.deep_view();
        rendered.push(coords[i].as_string());
        proof {
            assert(rendered.deep_view() =~= old_dv + seq![point_render(coords@[i as int])]);
            assert(rendered.deep_view() =~= points_render(coords@.take(i + 1)));
        }
    }
    assert(coords@.take(coords.len() as int) =~= coords@);
    let res = crate::text::join_strings(&rendered, "+");
    proof {
        reveal_strlit("+");
        assert("+"@ =~= seq!['+']);
    }
    res
}

/// A free-form location list: each entry is already the text the API takes,
/// and the entries are joined with commas.
#[derive(Clone, Debug, PartialEq)]
pub struct Locations {
    pub coordinates: Vec<String>,
}

impl Locations {
    /// Renders the list as its entries joined with `,`.
    pub fn as_string(&self) -> (res: String)
        ensures
            res@ == seq_join(self.coordinates.deep_view(), seq![',']),
    {
        let res = crate::text::join_strings(&self.coordinates, ",");
        proof {
            reveal_strlit(",");
            assert(","@ =~= seq![',']);
        }
        res
    }
}

} // verus!
