//! The options of a market maker.
use vstd::prelude::*;

verus! {

/// The options that a market maker is started with. `A` is the type of an address to listen on, `P`
/// that of a path and `U` that of the address of a web service.
#[derive(Debug)]
pub struct Opts<A, P, U> {
    /// The address to listen on for the lightning and contract peers.
    pub p2p_address: A,
    /// The address to listen on for the web interface.
    pub http_address: A,
    /// Where to keep data permanently, defaults to the current working directory.
    pub data_dir: Option<P>,
    /// The address of the orderbook.
    pub orderbook: U,
}

/// Where data is kept permanently: below a base, the names of the directories that lead there.
#[derive(Debug)]
pub struct DataDir<'a, P> {
    /// The directory that was configured or, if none was, the current working directory.
    pub base: Option<&'a P>,
    pub below: Vec<String>,
}

/// The characters of each of a list of names.
pub open spec fn names_of(names: Seq<String>) -> Seq<Seq<char>> {
    names.map_values(|name: String| name@)
}

impl<A, P, U> Opts<A, P, U> {
    /// Where data is kept permanently: in the maker's own directory below the one configured, which
    /// defaults to the current working directory.
    pub fn data_dir(&self) -> (dir: DataDir<'_, P>)
        ensures
            match self.data_dir {
                Some(path) => dir.base == Some(&path) && names_of(dir.below@) == seq!["maker"@],
                None => dir.base is None && names_of(dir.below@) == seq!["maker"@],
            },
            dir.below@.len() == 1,
            dir.below@[0]@ == "maker"@,
    {
        let mut below: Vec<String> = Vec::new();
        below.push("maker".to_owned());
        let dir = DataDir { base: self.data_dir.as_ref(), below };
        assert(names_of(dir.below@) =~= seq!["maker"@]);
        dir
    }
}

} // verus!
