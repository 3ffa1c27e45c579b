use vstd::prelude::*;

verus! {

/// Extra CA certificates to trust.
#[derive(Clone, Debug, PartialEq, Eq)]
pub enum CaData {
    /// The string is a file path
    File(String),
    /// This variant is not exposed as an option in the CLI, it is used internally
    /// for standalone binaries.
    Bytes(Vec<u8>),
}

/// A source of root certificates.
#[derive(Clone, Copy, Debug, PartialEq, Eq, Structural)]
pub enum CaStore {
    /// The bundled Mozilla root set.
    Mozilla,
    /// The platform's certificate store.
    System,
}

/// Errors in the certificate configuration.
#[derive(Clone, Debug, PartialEq, Eq)]
pub enum CertError {
    /// A store name other than `mozilla` or `system`.
    UnknownStore(String),
}

/// What a root certificate store is built from: the stores to load, in
/// order, and the extra CA data to add, if any.
#[derive(Clone, Debug)]
pub struct CertStorePlan {
    pub stores: Vec<CaStore>,
    pub ca_data: Option<CaData>,
}

/// What `str::trim` returns for a string.
pub uninterp spec fn trimmed(s: Seq<char>) -> Seq<char>;

/// Relies on `str::trim`: the string without leading and trailing
/// whitespace, which depends on the characters alone.
#[verifier::external_body]
fn trim_owned(s: &str) -> (r: String)
    ensures
        r@ == trimmed(s@),
{
    s.trim().to_string()
}

pub open spec fn string_views(v: Seq<String>) -> Seq<Seq<char>> {
    v.map_values(|s: String| s@)
}

/// Splitting `s` at commas, scanned left to right: the pieces closed so far
/// and the piece still open.
pub open spec fn split_state(s: Seq<char>) -> (Seq<Seq<char>>, Seq<char>)
    decreases s.len(),
{
    if s.len() == 0 {
        (Seq::empty(), Seq::empty())
    } else {
        let (done, open) = split_state(s.drop_last());
        if s.last() == ',' {
            (done.push(open), Seq::empty())
        } else {
            (done, open.push(s.last()))
        }
    }
}

/// The pieces of `s` between commas; a string without commas is one piece.
pub open spec fn comma_pieces(s: Seq<char>) -> Seq<Seq<char>> {
    split_state(s).0.push(split_state(s).1)
}

/// The pieces that are not empty, in order.
pub open spec fn nonempty(pieces: Seq<Seq<char>>) -> Seq<Seq<char>>
    decreases pieces.len(),
{
    if pieces.len() == 0 {
        Seq::empty()
    } else {
        let rest = nonempty(pieces.drop_last());
        if pieces.last().len() > 0 {
            rest.push(pieces.last())
        } else {
            rest
        }
    }
}

/// The store names listed in a comma-separated setting: the pieces between
/// commas, trimmed, without the empty ones.
pub open spec fn store_names(s: Seq<char>) -> Seq<Seq<char>> {
    nonempty(comma_pieces(s).map_values(|p: Seq<char>| trimmed(p)))
}

/// The store that a name denotes, if any.
pub open spec fn store_of(name: Seq<char>) -> Option<CaStore> {
    if name == "mozilla"@ {
        Some(CaStore::Mozilla)
    } else if name == "system"@ {
        Some(CaStore::System)
    } else {
        None
    }
}

/// The store names in force: those given, else those of the environment
/// setting, else the Mozilla set alone.
pub open spec fn chosen_store_names(given: Option<Seq<Seq<char>>>, env_setting: Option<Seq<char>>) -> Seq<
    Seq<char>,
> {
    match given {
        Some(names) => names,
        None => match env_setting {
            Some(e) => store_names(e),
            None => seq!["mozilla"@],
        },
    }
}

/// The CA data in force: that given, else the file named by the environment.
pub open spec fn chosen_ca_data(given: Option<CaData>, env_cert: Option<String>) -> Option<CaData> {
    match given {
        Some(d) => Some(d),
        None => match env_cert {
            Some(path) => Some(CaData::File(path)),
            None => None,
        },
    }
}

/// Whether every name denotes a store.
pub open spec fn all_known(names: Seq<Seq<char>>) -> bool {
    forall|i: int| 0 <= i < names.len() ==> (#[trigger] store_of(names[i])) is Some
}

/// Whether `i` is the position of the first name that denotes no store.
pub open spec fn is_first_unknown(names: Seq<Seq<char>>, i: int) -> bool {
    &&& 0 <= i < names.len()
    &&& store_of(names[i]) is None
    &&& forall|j: int| 0 <= j < i ==> (#[trigger] store_of(names[j])) is Some
}

/// The stores that known names denote, in order.
pub open spec fn stores_of(names: Seq<Seq<char>>) -> Seq<CaStore> {
    names.map_values(|n: Seq<char>| store_of(n)->Some_0)
}

/// Splits a string at its commas; a string without commas is one piece.
pub fn split_commas(value: &str) -> (r: Vec<String>)
    ensures
        string_views(r@) == comma_pieces(value@),
{
    let n: usize = value.unicode_len();
    let mut out: Vec<String> = Vec::new();
    let mut start: usize = 0;
    let mut i: usize = 0;
    while i < n
        invariant
            n == value@.len(),
            start <= i <= n,
            split_state(value@.subrange(0, i as int)) == (string_views(out@), value@.subrange(
                start as int,
                i as int,
            )),
        decreases n - i,
    {
        let c = value.get_char(i);
        assert(value@.subrange(0, i + 1).drop_last() =~= value@.subrange(0, i as int));
        if c == ',' {
            let piece = value.substring_char(start, i).to_owned();
            out.push(piece);
            assert(string_views(out@) =~= string_views(out@.drop_last()).push(piece@));
            start = i + 1;
            assert(value@.subrange(start as int, i + 1) =~= Seq::<char>::empty());
        } else {
            assert(value@.subrange(start as int, i + 1) =~= value@.subrange(
                start as int,
                i as int,
            ).push(c));
        }
        i = i + 1;
    }
    assert(value@.subrange(0, n as int) =~= value@);
    let last = value.substring_char(start, n).to_owned();
    out.push(last);
    assert(string_views(out@) =~= string_views(out@.drop_last()).push(last@));
    out
}

/// Keeps the pieces that are not empty, in order.
pub fn keep_nonempty(pieces: Vec<String>) -> (r: Vec<String>)
    ensures
        string_views(r@) == nonempty(string_views(pieces@)),
{
    let mut out: Vec<String> = Vec::new();
    let mut i: usize = 0;
    while i < pieces.len()
        invariant
            i <= pieces@.len(),
            string_views(out@) == nonempty(string_views(pieces@.subrange(0, i as int))),
        decreases pieces@.len() - i,
    {
        let piece = pieces[i].clone();
        let ghost prefix = string_views(pieces@.subrange(0, i + 1));
        assert(prefix.drop_last() =~= string_views(pieces@.subrange(0, i as int)));
        assert(prefix.last() == piece@);
        if !piece.as_str().is_empty() {
            out.push(piece);
            assert(string_views(out@) =~= string_views(out@.drop_last()).push(piece@));
        }
        i = i + 1;
    }
    assert(pieces@.subrange(0, pieces@.len() as int) =~= pieces@);
    out
}

/// Splits a comma-separated list of store names, trims each and drops the
/// empty ones.
pub fn parse_ca_store_list(value: &str) -> (r: Vec<String>)
    ensures
        string_views(r@) == store_names(value@),
{
    let pieces = split_commas(value);
    let ghost views = string_views(pieces@);
    let mut trimmed_pieces: Vec<String> = Vec::new();
    let mut i: usize = 0;
    while i < pieces.len()
        invariant
            i <= pieces@.len(),
            views == string_views(pieces@),
            trimmed_pieces@.len() == i,
            string_views(trimmed_pieces@) == views.subrange(0, i as int).map_values(
                |p: Seq<char>| trimmed(p),
            ),
        decreases pieces@.len() - i,
    {
        let t = trim_owned(pieces[i].as_str());
        assert(views[i as int] == pieces@[i as int]@);
        assert(t@ == trimmed(views[i as int]));
        let ghost before = trimmed_pieces@;
        trimmed_pieces.push(t);
        assert(trimmed_pieces@.drop_last() == before);
        let ghost want = views.subrange(0, i + 1).map_values(|p: Seq<char>| trimmed(p));
        let ghost had = views.subrange(0, i as int).map_values(|p: Seq<char>| trimmed(p));
        assert forall|j: int| 0 <= j <= i implies string_views(trimmed_pieces@)[j] == want[j] by {
            if j < i {
                assert(string_views(before)[j] == had[j]);
                assert(trimmed_pieces@[j] == before[j]);
            }
        }
        assert(string_views(trimmed_pieces@) =~= want);
        i = i + 1;
    }
    assert(views.subrange(0, pieces@.len() as int) =~= views);
    keep_nonempty(trimmed_pieces)
}

/// The store that a name denotes, if any.
pub fn ca_store_of(name: &String) -> (r: Option<CaStore>)
    ensures
        r == store_of(name@),
{
    let mozilla = String::from_str("mozilla");
    let system = String::from_str("system");
    if *name == mozilla {
        Some(CaStore::Mozilla)
    } else if *name == system {
        Some(CaStore::System)
    } else {
        None
    }
}

/// Maps store names to stores, failing on the first unknown name.
pub fn resolve_ca_stores(names: &Vec<String>) -> (r: Result<Vec<CaStore>, CertError>)
    ensures
        match r {
            Ok(stores) => all_known(string_views(names@)) && stores@ == stores_of(
                string_views(names@),
            ),
            Err(CertError::UnknownStore(n)) => exists|i: int|
                is_first_unknown(string_views(names@), i) && #[trigger] names@[i]@ == n@,
        },
{
    let ghost views = string_views(names@);
    let mut out: Vec<CaStore> = Vec::new();
    let mut i: usize = 0;
    while i < names.len()
        invariant
            views == string_views(names@),
            i <= names@.len(),
            out@.len() == i,
            forall|j: int| 0 <= j < i ==> (#[trigger] store_of(views[j])) is Some,
            forall|j: int| 0 <= j < i ==> out@[j] == store_of(views[j])->Some_0,
        decreases names@.len() - i,
    {
        match ca_store_of(&names[i]) {
            Some(s) => {
                out.push(s);
            },
            None => {
                let bad = names[i].clone();
                assert(is_first_unknown(views, i as int));
                return Err(CertError::UnknownStore(bad));
            },
        }
        i = i + 1;
    }
    assert(out@ =~= stores_of(views));
    Ok(out)
}

/// The CA data in force: that given, else the file named by the
/// environment's setting.
pub fn select_ca_data(maybe_ca_data: Option<CaData>, env_cert: Option<String>) -> (r: Option<CaData>)
    ensures
        r == chosen_ca_data(maybe_ca_data, env_cert),
{
    match maybe_ca_data {
        Some(d) => Some(d),
        None => match env_cert {
            Some(path) => Some(CaData::File(path)),
            None => None,
        },
    }
}

/// The views of optional store names.
pub open spec fn opt_names(o: Option<Vec<String>>) -> Option<Seq<Seq<char>>> {
    match o {
        Some(v) => Some(string_views(v@)),
        None => None,
    }
}

/// The view of an optional setting.
pub open spec fn opt_setting(o: Option<String>) -> Option<Seq<char>> {
    match o {
        Some(e) => Some(e@),
        None => None,
    }
}

/// Whether `r` is the outcome owed for the store names `names` and the CA
/// data `ca_data`: the plan when every name is known, else the first unknown
/// name as the error.
pub open spec fn plan_outcome(
    r: Result<CertStorePlan, CertError>,
    names: Seq<Seq<char>>,
    ca_data: Option<CaData>,
) -> bool {
    match r {
        Ok(plan) => {
            &&& all_known(names)
            &&& plan.stores@ == stores_of(names)
            &&& plan.ca_data == ca_data
        },
        Err(CertError::UnknownStore(n)) => exists|i: int|
            is_first_unknown(names, i) && #[trigger] names[i] == n@,
    }
}

/// Decides what a root certificate store is built from. The store names are
/// those given, else those listed in the environment's store setting, else
/// the Mozilla set; an unknown name is an error. The CA data is that given,
/// else the file named in the environment's certificate setting.
pub fn plan_root_cert_store(
    maybe_ca_stores: Option<Vec<String>>,
    env_ca_store: Option<String>,
    maybe_ca_data: Option<CaData>,
    env_cert: Option<String>,
) -> (r: Result<CertStorePlan, CertError>)
    ensures
        plan_outcome(
            r,
            chosen_store_names(opt_names(maybe_ca_stores), opt_setting(env_ca_store)),
            chosen_ca_data(maybe_ca_data, env_cert),
        ),
{
    let ghost want = chosen_store_names(opt_names(maybe_ca_stores), opt_setting(env_ca_store));
    let names: Vec<String> = match maybe_ca_stores {
        Some(v) => v,
        None => match env_ca_store {
            Some(e) => parse_ca_store_list(e.as_str()),
            None => {
                let mut d: Vec<String> = Vec::new();
                d.push(String::from_str("mozilla"));
                assert(string_views(d@) =~= seq!["mozilla"@]);
                d
            },
        },
    };
    let ghost chosen = string_views(names@);
    assert(chosen == want);
    match resolve_ca_stores(&names) {
        Ok(stores) => {
            let ca_data = select_ca_data(maybe_ca_data, env_cert);
            Ok(CertStorePlan { stores, ca_data })
        },
        Err(e) => {
            proof {
                let CertError::UnknownStore(n) = e;
                let i = choose|i: int| is_first_unknown(chosen, i) && #[trigger] names@[i]@ == n@;
                assert(chosen[i] == n@);
            }
            Err(e)
        },
    }
}

/// Decides what the root certificate store of a worker is built from: no
/// store names are given, and the CA data, if any, is given as bytes.
pub fn resolve_cert_store(
    ca_data: Option<Vec<u8>>,
    env_ca_store: Option<String>,
    env_cert: Option<String>,
) -> (r: Result<CertStorePlan, CertError>)
    ensures
        plan_outcome(
            r,
            chosen_store_names(None, opt_setting(env_ca_store)),
            chosen_ca_data(
                match ca_data {
                    Some(b) => Some(CaData::Bytes(b)),
                    None => None,
                },
                env_cert,
            ),
        ),
{
    let given = match ca_data {
        Some(b) => Some(CaData::Bytes(b)),
        None => None,
    };
    plan_root_cert_store(None, env_ca_store, given, env_cert)
}

} // verus!
