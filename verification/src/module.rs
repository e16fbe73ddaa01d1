//! Module aggregation: run the three entry decoders over one module node,
//! flatten every referenced type expression down to its named types, and
//! package the declarations with the distinct set of dependency type names
//! left after the configured exclusions.

use vstd::prelude::*;

use crate::decl::CallArg;
use crate::decl::CallArgModel;
use crate::decl::CallDeclModel;
use crate::decl::CallDeclaration;
use crate::decl::EventDeclModel;
use crate::decl::EventDeclaration;
use crate::decl::ModuleDeclModel;
use crate::decl::ModuleDeclaration;
use crate::decl::StorageDeclModel;
use crate::decl::StorageDeclaration;
use crate::decl::call_args_view;
use crate::decl::calls_view;
use crate::decl::events_view;
use crate::decl::storage_view;
use crate::entries::add_call_to_module;
use crate::entries::add_event_to_module;
use crate::entries::add_storage_to_module;
use crate::entries::call_decode_spec;
use crate::entries::event_decode_spec;
use crate::entries::storage_decode_spec;
use crate::error::Error;
use crate::error::ErrorModel;
use crate::error::unresolved_model;
use crate::schema::CallSchema;
use crate::schema::EventSchema;
use crate::schema::ModuleSchema;
use crate::text::str_eq;
use crate::types::RuntimeType;
use crate::types::TypeModel;
use crate::types::flatten_spec;
use crate::types::lemma_rt_seq_view;
use crate::types::rt_seq_view;

verus! {

/// The fixed system module: skipped entirely, producing no declarations.
pub open spec fn system_module() -> Seq<char> {
    "System"@
}

/// The four built-in associated type names every module already has access
/// to through the shared base capability; they are never re-declared as
/// module-specific dependencies.
pub open spec fn builtin_exclusion_names() -> Seq<Seq<char>> {
    seq!["BlockNumber"@, "AccountId"@, "AccountData"@, "Hash"@]
}

/// The standard exclusion configuration handed to the aggregator.
pub fn builtin_exclusions() -> (r: Vec<String>)
    ensures
        r.deep_view() == builtin_exclusion_names(),
{
    let mut v: Vec<String> = Vec::new();
    v.push("BlockNumber".to_owned());
    v.push("AccountId".to_owned());
    v.push("AccountData".to_owned());
    v.push("Hash".to_owned());
    proof {
        assert(v.deep_view() =~= builtin_exclusion_names());
    }
    v
}

/// Named types referenced by a call's arguments, in order.
pub open spec fn args_names(args: Seq<CallArgModel>) -> Seq<Seq<char>>
    decreases args.len(),
{
    if args.len() == 0 {
        Seq::empty()
    } else {
        flatten_spec(args[0].ty) + args_names(args.drop_first())
    }
}

pub open spec fn calls_names(cs: Seq<CallDeclModel>) -> Seq<Seq<char>>
    decreases cs.len(),
{
    if cs.len() == 0 {
        Seq::empty()
    } else {
        args_names(cs[0].args) + calls_names(cs.drop_first())
    }
}

/// Named types referenced by an ordered list of type expressions.
pub open spec fn types_names(ts: Seq<TypeModel>) -> Seq<Seq<char>>
    decreases ts.len(),
{
    if ts.len() == 0 {
        Seq::empty()
    } else {
        flatten_spec(ts[0]) + types_names(ts.drop_first())
    }
}

pub open spec fn events_names(es: Seq<EventDeclModel>) -> Seq<Seq<char>>
    decreases es.len(),
{
    if es.len() == 0 {
        Seq::empty()
    } else {
        types_names(es[0].types) + events_names(es.drop_first())
    }
}

pub open spec fn storage_names(ss: Seq<StorageDeclModel>) -> Seq<Seq<char>>
    decreases ss.len(),
{
    if ss.len() == 0 {
        Seq::empty()
    } else {
        flatten_spec(ss[0].value) + types_names(ss[0].keys) + storage_names(ss.drop_first())
    }
}

/// Every named type any declaration of the module references, in order.
pub open spec fn module_names(
    calls: Seq<CallDeclModel>,
    events: Seq<EventDeclModel>,
    storage: Seq<StorageDeclModel>,
) -> Seq<Seq<char>> {
    calls_names(calls) + events_names(events) + storage_names(storage)
}

/// The residual dependency set: the distinct referenced names, minus the
/// exclusions. Uniqueness is the only contract; order is irrelevant.
pub open spec fn deps_of(names: Seq<Seq<char>>, excl: Set<Seq<char>>) -> Set<Seq<char>> {
    names.to_set().difference(excl)
}

/// Excluding a second time changes nothing.
pub proof fn lemma_exclusion_idempotent(names: Seq<Seq<char>>, excl: Set<Seq<char>>)
    ensures
        deps_of(names, excl).difference(excl) == deps_of(names, excl),
{
    assert(deps_of(names, excl).difference(excl) =~= deps_of(names, excl));
}

/// Removing names that are already absent is a no-op.
pub proof fn lemma_exclusion_absent(s: Set<Seq<char>>, excl: Set<Seq<char>>)
    requires
        forall|x: Seq<char>| excl.contains(x) ==> !s.contains(x),
    ensures
        s.difference(excl) == s,
{
    assert(s.difference(excl) =~= s);
}

fn contains_name(v: &Vec<String>, s: &String) -> (r: bool)
    ensures
        r == v.deep_view().contains(s@),
{
    let mut i: usize = 0;
    while i < v.len()
        invariant
            0 <= i <= v@.len(),
            forall|j: int| 0 <= j < i ==> v.deep_view()[j] != s@,
        decreases v@.len() - i,
    {
        if str_eq(v[i].as_str(), s.as_str()) {
            proof {
                assert(v.deep_view()[i as int] == s@);
            }
            return true;
        }
        i += 1;
    }
    proof {
        if v.deep_view().contains(s@) {
            let w = choose|w: int| 0 <= w < v.deep_view().len() && v.deep_view()[w] == s@;
            assert(v.deep_view()[w] != s@);
        }
    }
    false
}

/// The distinct names of `names`, kept in first-occurrence order, with the
/// exclusions removed.
fn dedup_excluding(names: &Vec<String>, exclusions: &Vec<String>) -> (r: Vec<String>)
    ensures
        r.deep_view().to_set() == deps_of(names.deep_view(), exclusions.deep_view().to_set()),
        r.deep_view().no_duplicates(),
{
    let mut out: Vec<String> = Vec::new();
    let mut i: usize = 0;
    while i < names.len()
        invariant
            0 <= i <= names@.len(),
            out.deep_view().to_set() =~= deps_of(
                names.deep_view().subrange(0, i as int),
                exclusions.deep_view().to_set(),
            ),
            out.deep_view().no_duplicates(),
        decreases names@.len() - i,
    {
        let s = names[i].clone();
        proof {
            assert(s@ == names.deep_view()[i as int]);
        }
        let ghost out0 = out.deep_view();
        let ghost sub0 = names.deep_view().subrange(0, i as int);
        let ghost sub1 = names.deep_view().subrange(0, i as int + 1);
        let ghost ex = exclusions.deep_view().to_set();
        proof {
            assert(sub1 =~= sub0.push(names.deep_view()[i as int]));
            assert forall|x: Seq<char>| sub1.to_set().contains(x) <==> (sub0.to_set().contains(x)
                || x == names.deep_view()[i as int]) by {
                if sub1.contains(x) {
                    let w = choose|w: int| 0 <= w < sub1.len() && sub1[w] == x;
                    if w < i {
                        assert(sub0[w] == x);
                    }
                }
                if sub0.contains(x) {
                    let w = choose|w: int| 0 <= w < sub0.len() && sub0[w] == x;
                    assert(sub1[w] == x);
                }
                if x == names.deep_view()[i as int] {
                    assert(sub1[i as int] == x);
                }
            }
        }
        let excluded = contains_name(exclusions, &s);
        let dup = contains_name(&out, &s);
        if !excluded && !dup {
            out.push(s);
            proof {
                assert(out.deep_view() =~= out0.push(names.deep_view()[i as int]));
                assert forall|x: Seq<char>| out.deep_view().to_set().contains(x) <==> (
                out0.to_set().contains(x) || x == names.deep_view()[i as int]) by {
                    let dv = out.deep_view();
                    if dv.contains(x) {
                        let w = choose|w: int| 0 <= w < dv.len() && dv[w] == x;
                        if w < out0.len() {
                            assert(out0[w] == x);
                        }
                    }
                    if out0.contains(x) {
                        let w = choose|w: int| 0 <= w < out0.len() && out0[w] == x;
                        assert(dv[w] == x);
                    }
                    if x == names.deep_view()[i as int] {
                        assert(dv[out0.len() as int] == x);
                    }
                }
                assert forall|x: Seq<char>|
                    out.deep_view().to_set().contains(x) == deps_of(sub1, ex).contains(x) by {
                    assert(sub1.to_set().contains(x) == (sub0.to_set().contains(x) || x
                        == names.deep_view()[i as int]));
                    assert(out.deep_view().to_set().contains(x) == (out0.to_set().contains(x) || x
                        == names.deep_view()[i as int]));
                    assert(!ex.contains(names.deep_view()[i as int]));
                    assert(out0.to_set().contains(x) == deps_of(sub0, ex).contains(x));
                }
                assert(out.deep_view().to_set() =~= deps_of(sub1, ex));
                assert forall|a: int, b: int|
                    0 <= a < out.deep_view().len() && 0 <= b < out.deep_view().len() && a != b
                    implies out.deep_view()[a] != out.deep_view()[b] by {
                    if a < out0.len() && b < out0.len() {
                    } else if a < out0.len() {
                        if out.deep_view()[a] == out.deep_view()[b] {
                            assert(out0.contains(out0[a]));
                        }
                    } else if b < out0.len() {
                        if out.deep_view()[a] == out.deep_view()[b] {
                            assert(out0.contains(out0[b]));
                        }
                    }
                }
            }
        } else {
            proof {
                if excluded {
                    assert(out.deep_view().to_set() =~= deps_of(sub1, ex));
                } else {
                    assert(out0.to_set().contains(names.deep_view()[i as int]));
                    assert(out.deep_view().to_set() =~= deps_of(sub1, ex));
                }
            }
        }
        i += 1;
    }
    proof {
        assert(names.deep_view().subrange(0, i as int) =~= names.deep_view());
    }
    out
}

fn arg_names_exec(args: &Vec<CallArg>, j: usize) -> (r: Vec<String>)
    requires
        j <= args@.len(),
    ensures
        r.deep_view() == args_names(call_args_view(args@).subrange(j as int, args@.len() as int)),
    decreases args@.len() - j,
{
    let ghost sub = call_args_view(args@).subrange(j as int, args@.len() as int);
    if j == args.len() {
        let v: Vec<String> = Vec::new();
        proof {
            assert(v.deep_view() =~= Seq::<Seq<char>>::empty());
            assert(sub =~= Seq::<CallArgModel>::empty());
        }
        v
    } else {
        let mut v = args[j].ty.flatten_complex();
        let ghost head = v.deep_view();
        let mut rest = arg_names_exec(args, j + 1);
        v.append(&mut rest);
        proof {
            assert(sub[0] == call_args_view(args@)[j as int]);
            assert(sub[0] == args@[j as int]@);
            assert(sub.drop_first() =~= call_args_view(args@).subrange(
                j as int + 1,
                args@.len() as int,
            ));
            assert(v.deep_view() =~= head + args_names(sub.drop_first()));
            assert(args_names(sub) == flatten_spec(sub[0].ty) + args_names(sub.drop_first()));
        }
        v
    }
}

fn types_names_exec(ts: &Vec<RuntimeType>, j: usize) -> (r: Vec<String>)
    requires
        j <= ts@.len(),
    ensures
        r.deep_view() == types_names(rt_seq_view(ts@).subrange(j as int, ts@.len() as int)),
    decreases ts@.len() - j,
{
    proof {
        lemma_rt_seq_view(ts@);
    }
    let ghost sub = rt_seq_view(ts@).subrange(j as int, ts@.len() as int);
    if j == ts.len() {
        let v: Vec<String> = Vec::new();
        proof {
            assert(v.deep_view() =~= Seq::<Seq<char>>::empty());
            assert(sub =~= Seq::<TypeModel>::empty());
        }
        v
    } else {
        let mut v = ts[j].flatten_complex();
        let ghost head = v.deep_view();
        let mut rest = types_names_exec(ts, j + 1);
        v.append(&mut rest);
        proof {
            assert(sub[0] == rt_seq_view(ts@)[j as int]);
            assert(sub.drop_first() =~= rt_seq_view(ts@).subrange(j as int + 1, ts@.len() as int));
            assert(v.deep_view() =~= head + types_names(sub.drop_first()));
            assert(types_names(sub) == flatten_spec(sub[0]) + types_names(sub.drop_first()));
        }
        v
    }
}

fn calls_names_exec(calls: &Vec<CallDeclaration>, i: usize) -> (r: Vec<String>)
    requires
        i <= calls@.len(),
    ensures
        r.deep_view() == calls_names(calls_view(calls@).subrange(i as int, calls@.len() as int)),
    decreases calls@.len() - i,
{
    let ghost sub = calls_view(calls@).subrange(i as int, calls@.len() as int);
    if i == calls.len() {
        let v: Vec<String> = Vec::new();
        proof {
            assert(v.deep_view() =~= Seq::<Seq<char>>::empty());
            assert(sub =~= Seq::<CallDeclModel>::empty());
        }
        v
    } else {
        let mut v = arg_names_exec(&calls[i].args, 0);
        let ghost head = v.deep_view();
        let mut rest = calls_names_exec(calls, i + 1);
        v.append(&mut rest);
        proof {
            assert(sub[0] == calls_view(calls@)[i as int]);
            assert(sub[0] == calls@[i as int]@);
            assert(sub[0].args == call_args_view(calls@[i as int].args@));
            assert(call_args_view(calls@[i as int].args@).subrange(
                0,
                calls@[i as int].args@.len() as int,
            ) =~= sub[0].args);
            assert(sub.drop_first() =~= calls_view(calls@).subrange(
                i as int + 1,
                calls@.len() as int,
            ));
            assert(v.deep_view() =~= head + calls_names(sub.drop_first()));
            assert(calls_names(sub) == args_names(sub[0].args) + calls_names(sub.drop_first()));
        }
        v
    }
}

fn events_names_exec(events: &Vec<EventDeclaration>, i: usize) -> (r: Vec<String>)
    requires
        i <= events@.len(),
    ensures
        r.deep_view() == events_names(
            events_view(events@).subrange(i as int, events@.len() as int),
        ),
    decreases events@.len() - i,
{
    let ghost sub = events_view(events@).subrange(i as int, events@.len() as int);
    if i == events.len() {
        let v: Vec<String> = Vec::new();
        proof {
            assert(v.deep_view() =~= Seq::<Seq<char>>::empty());
            assert(sub =~= Seq::<EventDeclModel>::empty());
        }
        v
    } else {
        let mut v = types_names_exec(&events[i].arguments, 0);
        let ghost head = v.deep_view();
        let mut rest = events_names_exec(events, i + 1);
        v.append(&mut rest);
        proof {
            assert(sub[0] == events_view(events@)[i as int]);
            assert(sub[0] == events@[i as int]@);
            assert(sub[0].types == rt_seq_view(events@[i as int].arguments@));
            lemma_rt_seq_view(events@[i as int].arguments@);
            assert(rt_seq_view(events@[i as int].arguments@).subrange(
                0,
                events@[i as int].arguments@.len() as int,
            ) =~= sub[0].types);
            assert(sub.drop_first() =~= events_view(events@).subrange(
                i as int + 1,
                events@.len() as int,
            ));
            assert(v.deep_view() =~= head + events_names(sub.drop_first()));
            assert(events_names(sub) == types_names(sub[0].types) + events_names(
                sub.drop_first(),
            ));
        }
        v
    }
}

fn storage_names_exec(storage: &Vec<StorageDeclaration>, i: usize) -> (r: Vec<String>)
    requires
        i <= storage@.len(),
    ensures
        r.deep_view() == storage_names(
            storage_view(storage@).subrange(i as int, storage@.len() as int),
        ),
    decreases storage@.len() - i,
{
    let ghost sub = storage_view(storage@).subrange(i as int, storage@.len() as int);
    if i == storage.len() {
        let v: Vec<String> = Vec::new();
        proof {
            assert(v.deep_view() =~= Seq::<Seq<char>>::empty());
            assert(sub =~= Seq::<StorageDeclModel>::empty());
        }
        v
    } else {
        let mut v = storage[i].value.flatten_complex();
        let ghost val_names = v.deep_view();
        let mut keys = types_names_exec(&storage[i].keys, 0);
        let ghost key_names = keys.deep_view();
        v.append(&mut keys);
        let ghost head = v.deep_view();
        let mut rest = storage_names_exec(storage, i + 1);
        v.append(&mut rest);
        proof {
            assert(sub[0] == storage_view(storage@)[i as int]);
            assert(sub[0] == storage@[i as int]@);
            assert(sub[0].keys == rt_seq_view(storage@[i as int].keys@));
            lemma_rt_seq_view(storage@[i as int].keys@);
            assert(rt_seq_view(storage@[i as int].keys@).subrange(
                0,
                storage@[i as int].keys@.len() as int,
            ) =~= sub[0].keys);
            assert(head =~= val_names + key_names);
            assert(sub.drop_first() =~= storage_view(storage@).subrange(
                i as int + 1,
                storage@.len() as int,
            ));
            assert(v.deep_view() =~= head + storage_names(sub.drop_first()));
            assert(storage_names(sub) == flatten_spec(sub[0].value) + types_names(sub[0].keys)
                + storage_names(sub.drop_first()));
            assert(v.deep_view() =~= val_names + key_names + storage_names(sub.drop_first()));
        }
        v
    }
}

/// What decoding a module's calls yields: the declarations in order, or the
/// first error.
pub open spec fn calls_decode_spec(cs: Seq<CallSchema>) -> Result<Seq<CallDeclModel>, ErrorModel>
    decreases cs.len(),
{
    if cs.len() == 0 {
        Ok(Seq::empty())
    } else {
        match call_decode_spec(cs[0]) {
            Err(e) => Err(e),
            Ok(d) => match calls_decode_spec(cs.drop_first()) {
                Err(e) => Err(e),
                Ok(rest) => Ok(seq![d] + rest),
            },
        }
    }
}

pub open spec fn events_decode_spec(es: Seq<EventSchema>) -> Result<Seq<EventDeclModel>, ErrorModel>
    decreases es.len(),
{
    if es.len() == 0 {
        Ok(Seq::empty())
    } else {
        match event_decode_spec(es[0]) {
            Err(e) => Err(e),
            Ok(d) => match events_decode_spec(es.drop_first()) {
                Err(e) => Err(e),
                Ok(rest) => Ok(seq![d] + rest),
            },
        }
    }
}

pub open spec fn module_calls_spec(m: ModuleSchema) -> Result<Seq<CallDeclModel>, ErrorModel> {
    match m.calls {
        Option::None => Ok(Seq::empty()),
        Option::Some(raw) => if !raw.is_resolved() {
            Err(unresolved_model())
        } else {
            calls_decode_spec(raw.value()@)
        },
    }
}

pub open spec fn module_events_spec(m: ModuleSchema) -> Result<Seq<EventDeclModel>, ErrorModel> {
    match m.event {
        Option::None => Ok(Seq::empty()),
        Option::Some(raw) => if !raw.is_resolved() {
            Err(unresolved_model())
        } else {
            events_decode_spec(raw.value()@)
        },
    }
}

pub open spec fn module_storage_spec(m: ModuleSchema) -> Result<Seq<StorageDeclModel>, ErrorModel> {
    match m.storage {
        Option::None => Ok(Seq::empty()),
        Option::Some(raw) => if !raw.is_resolved() {
            Err(unresolved_model())
        } else {
            storage_decode_spec(raw.value())
        },
    }
}

/// What aggregating one module yields, given its already-normalized names:
/// nothing for the system module; otherwise the packaged declarations and
/// dependency set, or the first error of the three decoders in call, event,
/// storage order.
pub open spec fn module_decode_spec(
    name_camel: Seq<char>,
    name_snake: Seq<char>,
    m: ModuleSchema,
    excl: Seq<Seq<char>>,
) -> Result<Option<ModuleDeclModel>, ErrorModel> {
    if name_camel == system_module() {
        Ok(None)
    } else {
        match module_calls_spec(m) {
            Err(e) => Err(e),
            Ok(calls) => match module_events_spec(m) {
                Err(e) => Err(e),
                Ok(events) => match module_storage_spec(m) {
                    Err(e) => Err(e),
                    Ok(storage) => Ok(
                        Some(
                            ModuleDeclModel {
                                name: name_camel,
                                name_snake,
                                calls,
                                events,
                                storage,
                                deps: deps_of(
                                    module_names(calls, events, storage),
                                    excl.to_set(),
                                ),
                            },
                        ),
                    ),
                },
            },
        }
    }
}

/// Aggregate one module whose display name is already normalized: skip the
/// system module, decode calls, events and storage in order, and package the
/// declarations with the deduplicated dependency set after exclusions.
#[verifier::loop_isolation(false)]
pub fn aggregate_module(
    name: String,
    name_snake: String,
    module: &ModuleSchema,
    exclusions: &Vec<String>,
) -> (r: Result<Option<ModuleDeclaration>, Error>)
    ensures
        match r {
            Ok(d) => match d {
                Some(d) => module_decode_spec(name@, name_snake@, *module, exclusions.deep_view())
                    == Ok::<Option<ModuleDeclModel>, ErrorModel>(Some(d@))
                    && d.dependency_types.deep_view().no_duplicates(),
                None => module_decode_spec(name@, name_snake@, *module, exclusions.deep_view())
                    == Ok::<Option<ModuleDeclModel>, ErrorModel>(None),
            },
            Err(e) => module_decode_spec(name@, name_snake@, *module, exclusions.deep_view())
                == Err::<Option<ModuleDeclModel>, ErrorModel>(e@),
        },
        (r matches Ok(d) && d is None) <==> name@ == system_module(),
{
    if str_eq(name.as_str(), "System") {
        return Ok(None);
    }
    proof {
        assert(name@ != system_module());
    }
    let ghost excl = exclusions.deep_view();
    let mut calls: Vec<CallDeclaration> = Vec::new();
    match &module.calls {
        None => {
            proof {
                assert(calls_view(calls@) =~= Seq::<CallDeclModel>::empty());
                assert(module_calls_spec(*module) == Ok::<Seq<CallDeclModel>, ErrorModel>(
                    calls_view(calls@),
                ));
            }
        },
        Some(raw) => {
            let cs = match raw.as_resolved() {
                Ok(c) => c,
                Err(e) => {
                    proof {
                        assert(module_calls_spec(*module) == Err::<Seq<CallDeclModel>, ErrorModel>(
                            e@,
                        ));
                    }
                    return Err(e);
                },
            };
            let mut i: usize = 0;
            proof {
                assert(cs@.subrange(0, cs@.len() as int) =~= cs@);
                assert(calls_view(calls@) =~= Seq::<CallDeclModel>::empty());
                match calls_decode_spec(cs@) {
                    Ok(rest) => {
                        assert(calls_view(calls@) + rest =~= rest);
                    },
                    Err(_) => {},
                }
            }
            while i < cs.len()
                invariant
                    0 <= i <= cs@.len(),
                    calls@.len() == i,
                    module.calls matches Some(rr) && rr.is_resolved() && rr.value() == *cs,
                    match calls_decode_spec(cs@.subrange(i as int, cs@.len() as int)) {
                        Ok(rest) => calls_decode_spec(cs@) == Ok::<Seq<CallDeclModel>, ErrorModel>(
                            calls_view(calls@) + rest,
                        ),
                        Err(e) => calls_decode_spec(cs@) == Err::<Seq<CallDeclModel>, ErrorModel>(
                            e,
                        ),
                    },
                decreases cs@.len() - i,
            {
                let ghost subi = cs@.subrange(i as int, cs@.len() as int);
                proof {
                    assert(subi.len() > 0);
                    assert(subi[0] == cs@[i as int]);
                    assert(subi.drop_first() =~= cs@.subrange(i as int + 1, cs@.len() as int));
                }
                match add_call_to_module(&cs[i]) {
                    Ok(d) => {
                        let ghost calls0 = calls@;
                        let ghost dg = d;
                        calls.push(d);
                        proof {
                            assert forall|j: int| 0 <= j < calls@.len() implies calls_view(
                                calls@,
                            )[j] == calls_view(calls0).push(dg@)[j] by {
                                if j < calls0.len() {
                                    assert(calls@[j] == calls0[j]);
                                } else {
                                    assert(calls@[j] == dg);
                                }
                            }
                            assert(calls_view(calls@) =~= calls_view(calls0).push(dg@));
                            match calls_decode_spec(subi.drop_first()) {
                                Ok(rest) => {
                                    assert(calls_decode_spec(subi) == Ok::<
                                        Seq<CallDeclModel>,
                                        ErrorModel,
                                    >(seq![dg@] + rest));
                                    assert(calls_view(calls0) + (seq![dg@] + rest) =~= calls_view(
                                        calls@,
                                    ) + rest);
                                },
                                Err(_) => {},
                            }
                        }
                    },
                    Err(e) => {
                        proof {
                            assert(calls_decode_spec(subi) == Err::<Seq<CallDeclModel>, ErrorModel>(
                                e@,
                            ));
                            assert(module_calls_spec(*module) == Err::<
                                Seq<CallDeclModel>,
                                ErrorModel,
                            >(e@));
                            assert(module_decode_spec(name@, name_snake@, *module, excl) == Err::<
                                Option<ModuleDeclModel>,
                                ErrorModel,
                            >(e@));
                        }
                        return Err(e);
                    },
                }
                i += 1;
            }
            proof {
                assert(cs@.subrange(i as int, cs@.len() as int) =~= Seq::<CallSchema>::empty());
                assert(calls_view(calls@) + Seq::<CallDeclModel>::empty() =~= calls_view(calls@));
                assert(calls_decode_spec(cs@) == Ok::<Seq<CallDeclModel>, ErrorModel>(
                    calls_view(calls@),
                ));
                assert(module_calls_spec(*module) == Ok::<Seq<CallDeclModel>, ErrorModel>(
                    calls_view(calls@),
                ));
            }
        },
    }
    let mut events: Vec<EventDeclaration> = Vec::new();
    match &module.event {
        None => {
            proof {
                assert(events_view(events@) =~= Seq::<EventDeclModel>::empty());
                assert(module_events_spec(*module) == Ok::<Seq<EventDeclModel>, ErrorModel>(
                    events_view(events@),
                ));
            }
        },
        Some(raw) => {
            let es = match raw.as_resolved() {
                Ok(c) => c,
                Err(e) => {
                    proof {
                        assert(module_events_spec(*module) == Err::<
                            Seq<EventDeclModel>,
                            ErrorModel,
                        >(e@));
                    }
                    return Err(e);
                },
            };
            let mut i: usize = 0;
            proof {
                assert(es@.subrange(0, es@.len() as int) =~= es@);
                assert(events_view(events@) =~= Seq::<EventDeclModel>::empty());
                match events_decode_spec(es@) {
                    Ok(rest) => {
                        assert(events_view(events@) + rest =~= rest);
                    },
                    Err(_) => {},
                }
            }
            while i < es.len()
                invariant
                    0 <= i <= es@.len(),
                    events@.len() == i,
                    module.event matches Some(rr) && rr.is_resolved() && rr.value() == *es,
                    match events_decode_spec(es@.subrange(i as int, es@.len() as int)) {
                        Ok(rest) => events_decode_spec(es@) == Ok::<
                            Seq<EventDeclModel>,
                            ErrorModel,
                        >(events_view(events@) + rest),
                        Err(e) => events_decode_spec(es@) == Err::<
                            Seq<EventDeclModel>,
                            ErrorModel,
                        >(e),
                    },
                decreases es@.len() - i,
            {
                let ghost subi = es@.subrange(i as int, es@.len() as int);
                proof {
                    assert(subi.len() > 0);
                    assert(subi[0] == es@[i as int]);
                    assert(subi.drop_first() =~= es@.subrange(i as int + 1, es@.len() as int));
                }
                match add_event_to_module(&es[i]) {
                    Ok(d) => {
                        let ghost events0 = events@;
                        let ghost dg = d;
                        events.push(d);
                        proof {
                            assert forall|j: int| 0 <= j < events@.len() implies events_view(
                                events@,
                            )[j] == events_view(events0).push(dg@)[j] by {
                                if j < events0.len() {
                                    assert(events@[j] == events0[j]);
                                } else {
                                    assert(events@[j] == dg);
                                }
                            }
                            assert(events_view(events@) =~= events_view(events0).push(dg@));
                            match events_decode_spec(subi.drop_first()) {
                                Ok(rest) => {
                                    assert(events_decode_spec(subi) == Ok::<
                                        Seq<EventDeclModel>,
                                        ErrorModel,
                                    >(seq![dg@] + rest));
                                    assert(events_view(events0) + (seq![dg@] + rest)
                                        =~= events_view(events@) + rest);
                                },
                                Err(_) => {},
                            }
                        }
                    },
                    Err(e) => {
                        proof {
                            assert(events_decode_spec(subi) == Err::<
                                Seq<EventDeclModel>,
                                ErrorModel,
                            >(e@));
                            assert(module_events_spec(*module) == Err::<
                                Seq<EventDeclModel>,
                                ErrorModel,
                            >(e@));
                            assert(module_decode_spec(name@, name_snake@, *module, excl) == Err::<
                                Option<ModuleDeclModel>,
                                ErrorModel,
                            >(e@));
                        }
                        return Err(e);
                    },
                }
                i += 1;
            }
            proof {
                assert(es@.subrange(i as int, es@.len() as int) =~= Seq::<EventSchema>::empty());
                assert(events_view(events@) + Seq::<EventDeclModel>::empty() =~= events_view(
                    events@,
                ));
                assert(events_decode_spec(es@) == Ok::<Seq<EventDeclModel>, ErrorModel>(
                    events_view(events@),
                ));
                assert(module_events_spec(*module) == Ok::<Seq<EventDeclModel>, ErrorModel>(
                    events_view(events@),
                ));
            }
        },
    }
    let mut storage: Vec<StorageDeclaration> = Vec::new();
    match &module.storage {
        None => {
            proof {
                assert(storage_view(storage@) =~= Seq::<StorageDeclModel>::empty());
                assert(module_storage_spec(*module) == Ok::<Seq<StorageDeclModel>, ErrorModel>(
                    storage_view(storage@),
                ));
            }
        },
        Some(raw) => {
            let ss = match raw.as_resolved() {
                Ok(c) => c,
                Err(e) => {
                    proof {
                        assert(module_storage_spec(*module) == Err::<
                            Seq<StorageDeclModel>,
                            ErrorModel,
                        >(e@));
                    }
                    return Err(e);
                },
            };
            match add_storage_to_module(ss) {
                Ok(ds) => {
                    storage = ds;
                    proof {
                        assert(module_storage_spec(*module) == Ok::<
                            Seq<StorageDeclModel>,
                            ErrorModel,
                        >(storage_view(storage@)));
                    }
                },
                Err(e) => {
                    proof {
                        assert(module_storage_spec(*module) == Err::<
                            Seq<StorageDeclModel>,
                            ErrorModel,
                        >(e@));
                        assert(module_decode_spec(name@, name_snake@, *module, excl) == Err::<
                            Option<ModuleDeclModel>,
                            ErrorModel,
                        >(e@));
                    }
                    return Err(e);
                },
            }
        },
    }
    let all_names = collect_module_names(&calls, &events, &storage);
    let deps = dedup_excluding(&all_names, exclusions);
    let d = ModuleDeclaration {
        name,
        name_snake,
        calls,
        events,
        storage,
        dependency_types: deps,
    };
    proof {
        let m = module_decode_spec(d.name@, d.name_snake@, *module, exclusions.deep_view());
        assert(m matches Ok(o) && o matches Some(dm) && dm =~= d@);
    }
    Ok(Some(d))
}

/// Every named type the module's declarations reference, in declaration
/// order: calls, then events, then storage.
fn collect_module_names(
    calls: &Vec<CallDeclaration>,
    events: &Vec<EventDeclaration>,
    storage: &Vec<StorageDeclaration>,
) -> (r: Vec<String>)
    ensures
        r.deep_view() == module_names(
            calls_view(calls@),
            events_view(events@),
            storage_view(storage@),
        ),
{
    let mut v = calls_names_exec(calls, 0);
    let mut ev = events_names_exec(events, 0);
    let mut sv = storage_names_exec(storage, 0);
    let ghost c_names = v.deep_view();
    let ghost e_names = ev.deep_view();
    let ghost s_names = sv.deep_view();
    v.append(&mut ev);
    v.append(&mut sv);
    proof {
        assert(calls_view(calls@).subrange(0, calls@.len() as int) =~= calls_view(calls@));
        assert(events_view(events@).subrange(0, events@.len() as int) =~= events_view(events@));
        assert(storage_view(storage@).subrange(0, storage@.len() as int) =~= storage_view(
            storage@,
        ));
        assert(v.deep_view() =~= c_names + e_names + s_names);
    }
    v
}

} // verus!
