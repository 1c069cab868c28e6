use vstd::prelude::*;

verus! {

/// An asset that the server can send: its path, its gzip-compressed bytes
/// and its MIME type.
pub type Asset<'a> = (&'a str, &'a [u8], &'a str);

/// `i` is the last entry of the table for the path `path`.
pub open spec fn is_last_asset(assets: Seq<Asset>, path: Seq<char>, i: int) -> bool {
    &&& 0 <= i < assets.len()
    &&& assets[i].0@ == path
    &&& forall|j: int| i < j < assets.len() ==> assets[j].0@ != path
}

/// Whether two texts are the same.
fn str_eq(a: &str, b: &str) -> (res: bool)
    ensures
        res == (a@ == b@),
{
    a.to_owned() == b.to_owned()
}

/// The entry of the asset table that a request for `path` is answered with:
/// the last one of that path (a later entry of a path takes the place of an
/// earlier one), or none.
pub fn asset_index(assets: &[Asset], path: &str) -> (res: Option<usize>)
    ensures
        res matches Some(i) ==> is_last_asset(assets@, path@, i as int),
        res is None ==> forall|j: int| 0 <= j < assets@.len() ==> assets@[j].0@ != path@,
{
    let mut i: usize = assets.len();
    while i > 0
        invariant
            i <= assets@.len(),
            forall|j: int| i <= j < assets@.len() ==> assets@[j].0@ != path@,
        decreases i,
    {
        i = i - 1;
        if str_eq(assets[i].0, path) {
            return Some(i);
        }
    }
    None
}

/// A request for a path is answered with the last entry of that path in the
/// table: no later entry has the path.
pub proof fn lemma_last_asset(assets: Seq<Asset>, path: Seq<char>, i: int)
    ensures
        is_last_asset(assets, path, i) <==> {
            &&& 0 <= i < assets.len()
            &&& assets[i].0@ == path
            &&& forall|j: int| i < j < assets.len() ==> assets[j].0@ != path
        },
{
}

} // verus!
