//! The project manifest: the directories that hold types, endpoints and
//! policies.
use vstd::prelude::*;
use vstd::string::StringExecFns;

verus! {

/// The directories that describe a project's types, endpoints and policies.
#[derive(Debug, PartialEq)]
pub struct Manifest {
    pub types: Vec<String>,
    pub endpoints: Vec<String>,
    pub policies: Vec<String>,
}

pub open spec fn strings_view(v: Seq<String>) -> Seq<Seq<char>> {
    v.map_values(|s: String| s@)
}

/// The entries of each directory listing, one listing after another.
pub open spec fn concat_listings(s: Seq<Seq<Seq<char>>>) -> Seq<Seq<char>>
    decreases s.len(),
{
    if s.len() == 0 {
        Seq::empty()
    } else {
        concat_listings(s.drop_last()) + s.last()
    }
}

pub open spec fn listings_view(v: Seq<Vec<String>>) -> Seq<Seq<Seq<char>>> {
    v.map_values(|l: Vec<String>| strings_view(l@))
}

fn copy_strings(v: &Vec<String>) -> (r: Vec<String>)
    ensures
        strings_view(r@) == strings_view(v@),
{
    let mut out: Vec<String> = Vec::new();
    let mut i: usize = 0;
    while i < v.len()
        invariant
            i <= v.len(),
            out@.len() == i,
            forall|k: int| 0 <= k < i ==> (#[trigger] out@[k])@ == v@[k]@,
        decreases v.len() - i,
    {
        out.push(v[i].clone());
        i = i + 1;
    }
    assert(strings_view(out@) =~= strings_view(v@));
    out
}

impl Manifest {
    pub fn new(types: Vec<String>, endpoints: Vec<String>, policies: Vec<String>) -> (r: Manifest)
        ensures
            r.types == types,
            r.endpoints == endpoints,
            r.policies == policies,
    {
        Manifest { types, endpoints, policies }
    }

    /// The manifest of a project without one: `./types`, `./endpoints` and
    /// `./policies`.
    pub fn fallback() -> (r: Manifest)
        ensures
            strings_view(r.types@) == seq!["./types"@],
            strings_view(r.endpoints@) == seq!["./endpoints"@],
            strings_view(r.policies@) == seq!["./policies"@],
    {
        let mut types: Vec<String> = Vec::new();
        types.push(String::from_str("./types"));
        let mut endpoints: Vec<String> = Vec::new();
        endpoints.push(String::from_str("./endpoints"));
        let mut policies: Vec<String> = Vec::new();
        policies.push(String::from_str("./policies"));
        let r = Manifest { types, endpoints, policies };
        assert(strings_view(r.types@) =~= seq!["./types"@]);
        assert(strings_view(r.endpoints@) =~= seq!["./endpoints"@]);
        assert(strings_view(r.policies@) =~= seq!["./policies"@]);
        r
    }

    /// The directories of type definitions.
    pub fn types(&self) -> (r: Vec<String>)
        ensures
            strings_view(r@) == strings_view(self.types@),
    {
        copy_strings(&self.types)
    }

    /// The directories of endpoints.
    pub fn endpoints(&self) -> (r: Vec<String>)
        ensures
            strings_view(r@) == strings_view(self.endpoints@),
    {
        copy_strings(&self.endpoints)
    }

    /// The directories of policies.
    pub fn policies(&self) -> (r: Vec<String>)
        ensures
            strings_view(r@) == strings_view(self.policies@),
    {
        copy_strings(&self.policies)
    }

    /// The paths of all entries, given the listing of each directory in
    /// order: the entries of the first directory, then of the second, ...
    pub fn dirs_to_paths(listings: &Vec<Vec<String>>) -> (r: Vec<String>)
        ensures
            strings_view(r@) == concat_listings(listings_view(listings@)),
    {
        let ghost lv = listings_view(listings@);
        let mut paths: Vec<String> = Vec::new();
        let mut i: usize = 0;
        assert(lv.take(0) =~= Seq::<Seq<Seq<char>>>::empty());
        assert(strings_view(paths@) =~= Seq::<Seq<char>>::empty());
        while i < listings.len()
            invariant
                i <= listings.len(),
                lv == listings_view(listings@),
                strings_view(paths@) == concat_listings(lv.take(i as int)),
            decreases listings.len() - i,
        {
            let dir = &listings[i];
            let ghost before = strings_view(paths@);
            let mut j: usize = 0;
            while j < dir.len()
                invariant
                    j <= dir.len(),
                    strings_view(paths@) == before + strings_view(dir@).take(j as int),
                decreases dir.len() - j,
            {
                let ghost prev = paths@;
                let entry = dir[j].clone();
                paths.push(entry);
                assert(strings_view(paths@) =~= strings_view(prev).push(dir@[j as int]@));
                assert(strings_view(dir@).take(j + 1) =~= strings_view(dir@).take(j as int).push(
                    dir@[j as int]@,
                ));
                assert(strings_view(paths@) =~= before + strings_view(dir@).take(j + 1));
                j = j + 1;
            }
            assert(strings_view(dir@).take(dir.len() as int) =~= strings_view(dir@));
            assert(lv.take(i + 1).drop_last() =~= lv.take(i as int));
            assert(lv.take(i + 1).last() == strings_view(dir@));
            i = i + 1;
        }
        assert(lv.take(listings.len() as int) =~= lv);
        paths
    }
}

} // verus!
