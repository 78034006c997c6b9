//! The routing table of the gateway: modules by name, each a table of
//! methods by name.

use vstd::prelude::*;

use crate::proto::{code_number, Code, Response};
use crate::table::Table;

verus! {

/// Why a call could not be routed.
pub enum Error {
    NotFound,
    Internal(String),
}

/// The modules that the gateway serves, each mapping method names to the
/// handler `F` that answers them.
pub struct Modules<F> {
    static_modules: Table<Table<F>>,
}

/// The methods of each module, by module name.
pub open spec fn module_maps<F>(t: Map<Seq<char>, Table<F>>) -> Map<Seq<char>, Map<Seq<char>, F>> {
    t.map_values(|m: Table<F>| m@)
}

impl<F> View for Modules<F> {
    type V = Map<Seq<char>, Map<Seq<char>, F>>;

    closed spec fn view(&self) -> Map<Seq<char>, Map<Seq<char>, F>> {
        module_maps(self.static_modules@)
    }
}

impl<F> Modules<F> {
    /// A gateway without modules.
    pub fn new() -> (res: Self)
        ensures
            res@ == Map::<Seq<char>, Map<Seq<char>, F>>::empty(),
    {
        let static_modules: Table<Table<F>> = Table::new();
        let res = Modules { static_modules };
        assert(module_maps(res.static_modules@) =~= Map::<Seq<char>, Map<Seq<char>, F>>::empty());
        res
    }

    /// Whether a module is served under `name`.
    pub fn contains_module(&self, name: &str) -> (res: bool)
        ensures
            res == self@.dom().contains(name@),
    {
        self.static_modules.contains_key(name)
    }

    /// Serves the methods of `method_map` under the module name `name`,
    /// which must not be taken yet.
    pub fn add_static(&mut self, name: String, method_map: Table<F>)
        requires
            !old(self)@.dom().contains(name@),
        ensures
            final(self)@ == old(self)@.insert(name@, method_map@),
    {
        let ghost old_modules = self.static_modules@;
        let ghost k = name@;
        let ghost m = method_map;
        self.static_modules.insert(name, method_map);
        assert(module_maps(self.static_modules@) =~= module_maps(old_modules).insert(k, m@));
    }

    /// The handler of `method` in `module`, or `NotFound` when there is none.
    pub fn lookup(&self, module: &str, method: &str) -> (res: Result<&F, Error>)
        ensures
            match res {
                Ok(f) => self@.dom().contains(module@) && self@[module@].dom().contains(method@)
                    && *f == self@[module@][method@],
                Err(e) => e is NotFound && !(self@.dom().contains(module@)
                    && self@[module@].dom().contains(method@)),
            },
    {
        match self.static_modules.get(module) {
            Some(methods) => match methods.get(method) {
                Some(f) => Ok(f),
                None => Err(Error::NotFound),
            },
            None => Err(Error::NotFound),
        }
    }
}

/// Once a module is added, each of its methods is found under its name
/// and module; other modules stay as they were. `before` and `after` are
/// the gateway before and after `add_static(name, methods)`; a lookup
/// finds exactly what the view holds.
pub proof fn law_add_then_lookup<F>(
    before: Modules<F>,
    after: Modules<F>,
    name: Seq<char>,
    methods: Map<Seq<char>, F>,
    method: Seq<char>,
    other: Seq<char>,
)
    requires
        !before@.dom().contains(name),
        after@ == before@.insert(name, methods),
        other != name,
    ensures
        after@.dom().contains(name) && (after@[name].dom().contains(method) <==> methods.dom().contains(method)),
        methods.dom().contains(method) ==> after@[name][method] == methods[method],
        after@.dom().contains(other) == before@.dom().contains(other),
        before@.dom().contains(other) ==> after@[other] == before@[other],
{
}

/// The answer to a routed call: the module's answer, or "404 not found"
/// when the call could not be routed.
pub fn answer_or_not_found(res: Result<Response, Error>) -> (out: Response)
    ensures
        match res {
            Ok(r) => out == r,
            Err(_) => out.code_spec() == code_number(Code::NotFound) && out.body_spec()
                == "404 not found"@,
        },
{
    match res {
        Ok(r) => r,
        Err(_) => Response::with_code(Code::NotFound, String::from_str("404 not found")),
    }
}

} // verus!
