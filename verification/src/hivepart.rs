//! Hive-style partition paths: `key=value` directories.
use vstd::prelude::*;

use crate::paths::path_of_parts;
use crate::paths::push_path;

verus! {

/// The directory name `key=value`.
pub open spec fn hive_segment(field: (Seq<char>, Seq<char>)) -> Seq<char> {
    field.0 + seq!['='] + field.1
}

/// The fields as (key, value) texts.
pub open spec fn fields_view(fields: Seq<(String, String)>) -> Seq<(Seq<char>, Seq<char>)> {
    fields.map_values(|f: (String, String)| (f.0@, f.1@))
}

/// The key/value pairs of a partition path, outermost first.
pub type Fields = Vec<(String, String)>;

/// The partition path of `fields`: one `key=value` directory per field, in
/// order, pushed onto an empty path.
pub fn mk_hive(fields: Fields) -> (r: String)
    ensures
        r@ == path_of_parts(fields_view(fields@).map_values(|f: (Seq<char>, Seq<char>)| hive_segment(f))),
{
    let ghost segs = fields_view(fields@).map_values(|f: (Seq<char>, Seq<char>)| hive_segment(f));
    let mut p = String::new();
    let mut i: usize = 0;
    proof {
        assert(segs.take(0) =~= Seq::<Seq<char>>::empty());
    }
    while i < fields.len()
        invariant
            0 <= i <= fields.len(),
            segs == fields_view(fields@).map_values(|f: (Seq<char>, Seq<char>)| hive_segment(f)),
            p@ == path_of_parts(segs.take(i as int)),
        decreases fields.len() - i,
    {
        let mut seg = fields[i].0.clone();
        seg.append("=");
        seg.append(fields[i].1.as_str());
        proof {
            reveal_strlit("=");
            assert(seg@ =~= hive_segment((fields@[i as int].0@, fields@[i as int].1@)));
            assert(segs.take(i + 1).drop_last() =~= segs.take(i as int));
            assert(segs.take(i + 1).last() == seg@);
        }
        p = push_path(p.as_str(), seg.as_str());
        i = i + 1;
    }
    proof {
        assert(segs.take(fields.len() as int) =~= segs);
    }
    p
}

} // verus!
