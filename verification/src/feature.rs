//! The output side of the conversion: features with an optional Point or
//! LineString geometry and an ordered-insertion property map, gathered into a
//! feature collection.

use vstd::prelude::*;

use crate::text::string_eq;

verus! {

/// A geometry restricted to the two kinds the conversion produces.
#[derive(Debug, PartialEq)]
pub enum Geometry<C> {
    Point((C, C)),
    LineString(Vec<(C, C)>),
}

/// The mathematical value of a geometry.
pub enum GeometryModel<C> {
    Point((C, C)),
    LineString(Seq<(C, C)>),
}

impl<C> View for Geometry<C> {
    type V = GeometryModel<C>;

    open spec fn view(&self) -> GeometryModel<C> {
        match self {
            Geometry::Point(p) => GeometryModel::Point(*p),
            Geometry::LineString(pts) => GeometryModel::LineString(pts@),
        }
    }
}

/// An ordered-insertion property map: string keys to string values, in the
/// order they were added. The builders of this crate only add a key once.
#[derive(Clone, Debug, PartialEq)]
pub struct Properties {
    pub entries: Vec<(String, String)>,
}

impl View for Properties {
    type V = Seq<(Seq<char>, Seq<char>)>;

    open spec fn view(&self) -> Seq<(Seq<char>, Seq<char>)> {
        self.entries@.map_values(|kv: (String, String)| (kv.0@, kv.1@))
    }
}

/// The value stored under `key`, walking the entries in insertion order
/// (first match wins).
pub open spec fn spec_lookup(props: Seq<(Seq<char>, Seq<char>)>, key: Seq<char>) -> Option<
    Seq<char>,
>
    decreases props.len(),
{
    if props.len() == 0 {
        None
    } else if props[0].0 == key {
        Some(props[0].1)
    } else {
        spec_lookup(props.drop_first(), key)
    }
}

/// Whether some entry carries `key`.
pub open spec fn spec_has_key(props: Seq<(Seq<char>, Seq<char>)>, key: Seq<char>) -> bool {
    exists|i: int| 0 <= i < props.len() && props[i].0 == key
}

impl Properties {
    /// An empty property map.
    pub fn new() -> (r: Properties)
        ensures
            r@ == Seq::<(Seq<char>, Seq<char>)>::empty(),
    {
        let r = Properties { entries: Vec::new() };
        proof {
            assert(r@ =~= Seq::<(Seq<char>, Seq<char>)>::empty());
        }
        r
    }

    /// Appends one entry.
    pub fn push_pair(&mut self, key: &str, value: String)
        ensures
            final(self)@ == old(self)@.push((key@, value@)),
    {
        let ghost before = self@;
        self.entries.push((key.to_owned(), value));
        proof {
            assert(self@ =~= before.push((key@, value@)));
        }
    }

    /// The number of entries.
    pub fn len(&self) -> (r: usize)
        ensures
            r == self@.len(),
    {
        self.entries.len()
    }

    /// Looks `key` up, first match wins.
    pub fn get(&self, key: &str) -> (r: Option<&String>)
        ensures
            match r {
                Some(v) => spec_lookup(self@, key@) == Some(v@),
                None => spec_lookup(self@, key@) is None,
            },
    {
        let key_owned = key.to_owned();
        let mut i: usize = 0;
        proof {
            assert(self@.skip(0) =~= self@);
        }
        while i < self.entries.len()
            invariant
                i <= self.entries@.len(),
                key_owned@ == key@,
                spec_lookup(self@, key@) == spec_lookup(self@.skip(i as int), key@),
            decreases self.entries@.len() - i,
        {
            proof {
                assert(self@.skip(i as int).drop_first() =~= self@.skip(i + 1));
                assert(self@.skip(i as int)[0] == self@[i as int]);
            }
            let entry = &self.entries[i];
            if string_eq(&entry.0, &key_owned) {
                return Some(&entry.1);
            }
            i = i + 1;
        }
        proof {
            assert(self@.skip(i as int) =~= Seq::<(Seq<char>, Seq<char>)>::empty());
        }
        None
    }
}

/// One output feature: an optional geometry and, when the feature's subject
/// could be resolved, a property map.
#[derive(Debug, PartialEq)]
pub struct Feature<C> {
    pub geometry: Option<Geometry<C>>,
    pub properties: Option<Properties>,
}

/// The mathematical value of a feature.
pub struct FeatureModel<C> {
    pub geometry: Option<GeometryModel<C>>,
    pub properties: Option<Seq<(Seq<char>, Seq<char>)>>,
}

impl<C> View for Feature<C> {
    type V = FeatureModel<C>;

    open spec fn view(&self) -> FeatureModel<C> {
        FeatureModel {
            geometry: match self.geometry {
                Some(g) => Some(g@),
                None => None,
            },
            properties: match self.properties {
                Some(p) => Some(p@),
                None => None,
            },
        }
    }
}

/// The mathematical value of a sequence of features.
pub open spec fn spec_features_view<C>(features: Seq<Feature<C>>) -> Seq<FeatureModel<C>> {
    features.map_values(|f: Feature<C>| f@)
}

/// An ordered collection of features; no bounding box, no extra members.
#[derive(Debug, PartialEq)]
pub struct FeatureCollection<C> {
    pub features: Vec<Feature<C>>,
}

impl<C> View for FeatureCollection<C> {
    type V = Seq<FeatureModel<C>>;

    open spec fn view(&self) -> Seq<FeatureModel<C>> {
        spec_features_view(self.features@)
    }
}

} // verus!
