//! What to tell about a lane in words.

use crate::map_model::{Intersection, Lane, Road, StreetMap};
use crate::render::lane::DrawLane;
use crate::text::{
    decimal, metres, signed_decimal, spec_decimal, spec_metres, spec_signed_decimal,
};
use vstd::prelude::*;
use vstd::string::StringExecFns;

verus! {

/// The texts as plain values.
pub open spec fn strings_view(lines: Seq<String>) -> Seq<Seq<char>> {
    Seq::new(lines.len(), |i: int| lines[i]@)
}

/// The value of the first tag at or after `i` whose key is `key`.
pub open spec fn spec_tag_from(tags: Seq<(String, String)>, key: Seq<char>, i: int) -> Option<
    Seq<char>,
>
    decreases tags.len() - i,
{
    if i < 0 || i >= tags.len() {
        None
    } else if tags[i].0@ == key {
        Some(tags[i].1@)
    } else {
        spec_tag_from(tags, key, i + 1)
    }
}

/// The value of the first tag whose key is `key`.
pub open spec fn spec_tag(tags: Seq<(String, String)>, key: Seq<char>) -> Option<Seq<char>> {
    spec_tag_from(tags, key, 0)
}

/// The name to show for a road: the value of its tag `name`, or `???` if it
/// has none.
pub open spec fn spec_road_name(road: &Road) -> Seq<char> {
    match spec_tag(road.osm_tags@, "name"@) {
        Some(v) => v,
        None => "???"@,
    }
}

/// One tag as `key = value`.
pub open spec fn spec_tag_line(tags: Seq<(String, String)>, i: int) -> Seq<char> {
    tags[i].0@ + " = "@ + tags[i].1@
}

/// What to tell about a lane: its number and its road's name; the way the
/// road was made from and the road's number; the heights of the
/// intersections at its two ends; its length; then each of the road's tags.
pub open spec fn spec_tooltip(lane: &Lane, road: &Road, src: &Intersection, dst: &Intersection)
    -> Seq<Seq<char>> {
    seq![
        "Lane #"@ + spec_decimal(lane.id.0 as nat) + " is "@ + spec_road_name(road),
        "From OSM way "@ + spec_signed_decimal(road.osm_way_id as int) + ", parent is Road #"@
            + spec_decimal(road.id.0 as nat),
        "Lane goes from "@ + spec_metres(src.elevation as int) + "m to "@ + spec_metres(
            dst.elevation as int,
        ) + "m"@,
        "Lane is "@ + spec_metres(lane.spec_length() as int) + "m long"@,
    ] + Seq::new(road.osm_tags@.len(), |i: int| spec_tag_line(road.osm_tags@, i))
}

/// The value of the first tag whose key is `key`.
pub fn tag<'a>(tags: &'a Vec<(String, String)>, key: &str) -> (r: Option<&'a String>)
    ensures
        r is Some <==> spec_tag(tags@, key@) is Some,
        r matches Some(v) ==> Some(v@) == spec_tag(tags@, key@),
{
    let wanted: String = String::from_str(key);
    let mut i: usize = 0;
    while i < tags.len()
        invariant
            i <= tags.len(),
            wanted@ == key@,
            spec_tag_from(tags@, key@, i as int) == spec_tag(tags@, key@),
        decreases tags.len() - i,
    {
        if tags[i].0 == wanted {
            return Some(&tags[i].1);
        }
        i += 1;
    }
    None
}

/// The name to show for a road.
pub fn road_name(road: &Road) -> (s: String)
    ensures
        s@ == spec_road_name(road),
{
    match tag(&road.osm_tags, "name") {
        Some(v) => v.clone(),
        None => String::from_str("???"),
    }
}

impl DrawLane {
    /// Tells about the lane in words, one line for each thing to tell.
    pub fn tooltip_lines(&self, map: &StreetMap) -> (r: Vec<String>)
        requires
            map.wf(),
            self.id.0 < map.lanes@.len(),
        ensures
            ({
                let l = &map.lanes@[self.id.0 as int];
                &&& strings_view(r@) == spec_tooltip(
                    l,
                    &map.roads@[l.parent.0 as int],
                    &map.intersections@[l.src_i.0 as int],
                    &map.intersections@[l.dst_i.0 as int],
                )
                &&& r@.len() == 4 + map.roads@[l.parent.0 as int].osm_tags@.len()
            }),
    {
        let l: &Lane = map.get_l(self.id);
        assert(l.wf() && map.lane_fits(l));
        let r: &Road = map.get_r(l.parent);
        let src: &Intersection = map.get_i(l.src_i);
        let dst: &Intersection = map.get_i(l.dst_i);
        let mut lines: Vec<String> = Vec::new();

        let mut first: String = String::from_str("Lane #");
        first.append(decimal(l.id.0 as u64).as_str());
        first.append(" is ");
        first.append(road_name(r).as_str());
        lines.push(first);

        let mut second: String = String::from_str("From OSM way ");
        second.append(signed_decimal(r.osm_way_id).as_str());
        second.append(", parent is Road #");
        second.append(decimal(r.id.0 as u64).as_str());
        lines.push(second);

        let mut third: String = String::from_str("Lane goes from ");
        third.append(metres(src.elevation).as_str());
        third.append("m to ");
        third.append(metres(dst.elevation).as_str());
        third.append("m");
        lines.push(third);

        let mut fourth: String = String::from_str("Lane is ");
        fourth.append(metres(l.length() as i64).as_str());
        fourth.append("m long");
        lines.push(fourth);

        let ghost head = strings_view(lines@);
        let ghost tags = r.osm_tags@;
        let ghost tail = Seq::new(tags.len(), |i: int| spec_tag_line(tags, i));
        let mut i: usize = 0;
        assert(strings_view(lines@) =~= head + tail.take(0));
        while i < r.osm_tags.len()
            invariant
                i <= r.osm_tags.len(),
                tags == r.osm_tags@,
                tail == Seq::new(tags.len(), |i: int| spec_tag_line(tags, i)),
                strings_view(lines@) == head + tail.take(i as int),
            decreases r.osm_tags.len() - i,
        {
            let ghost prev = strings_view(lines@);
            let mut line: String = r.osm_tags[i].0.clone();
            line.append(" = ");
            line.append(r.osm_tags[i].1.as_str());
            lines.push(line);
            proof {
                assert(strings_view(lines@) =~= prev.push(tail[i as int]));
                assert(tail.take(i + 1) =~= tail.take(i as int).push(tail[i as int]));
                assert(strings_view(lines@) =~= head + tail.take(i + 1));
            }
            i += 1;
        }
        proof {
            assert(tail.take(tags.len() as int) =~= tail);
            assert(head =~= seq![
                "Lane #"@ + spec_decimal(l.id.0 as nat) + " is "@ + spec_road_name(r),
                "From OSM way "@ + spec_signed_decimal(r.osm_way_id as int)
                    + ", parent is Road #"@ + spec_decimal(r.id.0 as nat),
                "Lane goes from "@ + spec_metres(src.elevation as int) + "m to "@ + spec_metres(
                    dst.elevation as int,
                ) + "m"@,
                "Lane is "@ + spec_metres(l.spec_length() as int) + "m long"@,
            ]);
        }
        lines
    }
}

} // verus!
