//! Entry decoders: one per kind of module sub-schema. Each decodes names and
//! type strings through the decode guard, parses every type string into the
//! algebra, and produces the normalized declaration.

use vstd::prelude::*;

use crate::decl::CallArg;
use crate::decl::CallArgModel;
use crate::decl::CallDeclModel;
use crate::decl::CallDeclaration;
use crate::decl::EventDeclModel;
use crate::decl::EventDeclaration;
use crate::decl::StorageDeclModel;
use crate::decl::StorageDeclaration;
use crate::decl::StorageShape;
use crate::decl::call_args_view;
use crate::decl::storage_view;
use crate::error::Error;
use crate::error::ErrorModel;
use crate::error::unresolved_model;
use crate::schema::ArgSchema;
use crate::schema::CallSchema;
use crate::schema::EntrySchema;
use crate::schema::EntryType;
use crate::schema::EventSchema;
use crate::schema::StorageSchema;
use crate::types::RuntimeType;
use crate::types::TypeModel;
use crate::types::lemma_rt_seq_view;
use crate::types::parse_spec;
use crate::types::rt_seq_view;
use crate::types::rt_view;

verus! {

pub open spec fn arg_wf(a: ArgSchema) -> bool {
    a.name.is_resolved() && a.ty.is_resolved()
}

pub open spec fn arg_model(a: ArgSchema) -> CallArgModel {
    CallArgModel { name: a.name.value()@, ty: parse_spec(a.ty.value()@) }
}

pub open spec fn args_wf(s: Seq<ArgSchema>) -> bool {
    forall|i: int| 0 <= i < s.len() ==> arg_wf(s[i])
}

pub open spec fn args_models(s: Seq<ArgSchema>) -> Seq<CallArgModel> {
    s.map_values(|a: ArgSchema| arg_model(a))
}

/// What the call decoder produces: the declaration, or the unresolved-field
/// error exactly when the name, the argument list, or any argument field is
/// still a placeholder.
pub open spec fn call_decode_spec(c: CallSchema) -> Result<CallDeclModel, ErrorModel> {
    if !c.name.is_resolved() {
        Err(unresolved_model())
    } else if !c.arguments.is_resolved() {
        Err(unresolved_model())
    } else if !args_wf(c.arguments.value()@) {
        Err(unresolved_model())
    } else {
        Ok(CallDeclModel { name: c.name.value()@, args: args_models(c.arguments.value()@) })
    }
}

/// Decode one callable function: its name, then its ordered argument list,
/// each argument's type string parsed into the algebra. Order is preserved.
pub fn add_call_to_module(fn_meta: &CallSchema) -> (r: Result<CallDeclaration, Error>)
    ensures
        match r {
            Ok(d) => call_decode_spec(*fn_meta) == Ok::<CallDeclModel, ErrorModel>(d@),
            Err(e) => call_decode_spec(*fn_meta) == Err::<CallDeclModel, ErrorModel>(e@),
        },
{
    let name = match fn_meta.name.as_resolved() {
        Ok(n) => n.clone(),
        Err(e) => {
            return Err(e);
        },
    };
    let args_raw = match fn_meta.arguments.as_resolved() {
        Ok(a) => a,
        Err(e) => {
            return Err(e);
        },
    };
    let mut args: Vec<CallArg> = Vec::new();
    let mut i: usize = 0;
    while i < args_raw.len()
        invariant
            0 <= i <= args_raw@.len(),
            forall|j: int| 0 <= j < i ==> arg_wf(args_raw@[j]),
            args@.len() == i,
            call_args_view(args@) =~= args_models(args_raw@.subrange(0, i as int)),
            fn_meta.name.is_resolved(),
            name@ == fn_meta.name.value()@,
            fn_meta.arguments.is_resolved(),
            *args_raw == fn_meta.arguments.value(),
        decreases args_raw@.len() - i,
    {
        let a = &args_raw[i];
        let aname = match a.name.as_resolved() {
            Ok(n) => n.clone(),
            Err(e) => {
                return Err(e);
            },
        };
        let ty_str = match a.ty.as_resolved() {
            Ok(t) => t,
            Err(e) => {
                return Err(e);
            },
        };
        let ty = match RuntimeType::from_str(ty_str.as_str()) {
            Ok(t) => t,
            Err(e) => {
                return Err(e);
            },
        };
        let ghost args0 = args@;
        args.push(CallArg { name: aname, ty });
        proof {
            let sub0 = args_raw@.subrange(0, i as int);
            let sub1 = args_raw@.subrange(0, i as int + 1);
            assert forall|j: int| 0 <= j < i + 1 implies call_args_view(args@)[j] == args_models(
                sub1,
            )[j] by {
                assert(call_args_view(args@)[j] == args@[j]@);
                assert(args_models(sub1)[j] == arg_model(sub1[j]));
                assert(sub1[j] == args_raw@[j]);
                if j < i {
                    assert(args@[j] == args0[j]);
                    assert(call_args_view(args0)[j] == args0[j]@);
                    assert(args_models(sub0)[j] == arg_model(sub0[j]));
                    assert(sub0[j] == args_raw@[j]);
                } else {
                    assert(args@[j]@ == CallArgModel { name: aname@, ty: rt_view(ty) });
                }
            }
            assert(call_args_view(args@) =~= args_models(sub1));
        }
        i += 1;
    }
    proof {
        assert(args_raw@.subrange(0, i as int) =~= args_raw@);
    }
    Ok(CallDeclaration { name, args })
}

/// What the event decoder produces: the declaration, or the unresolved-field
/// error exactly when the name or the parameter list is still a placeholder.
pub open spec fn event_decode_spec(e: EventSchema) -> Result<EventDeclModel, ErrorModel> {
    if !e.name.is_resolved() {
        Err(unresolved_model())
    } else if !e.arguments.is_resolved() {
        Err(unresolved_model())
    } else {
        Ok(
            EventDeclModel {
                name: e.name.value()@,
                types: e.arguments.value()@.map_values(|s: String| parse_spec(s@)),
            },
        )
    }
}

/// Decode one event: its name and its ordered, positional parameter types.
pub fn add_event_to_module(event_meta: &EventSchema) -> (r: Result<EventDeclaration, Error>)
    ensures
        match r {
            Ok(d) => event_decode_spec(*event_meta) == Ok::<EventDeclModel, ErrorModel>(d@),
            Err(e) => event_decode_spec(*event_meta) == Err::<EventDeclModel, ErrorModel>(e@),
        },
{
    let name = match event_meta.name.as_resolved() {
        Ok(n) => n.clone(),
        Err(e) => {
            return Err(e);
        },
    };
    let args_raw = match event_meta.arguments.as_resolved() {
        Ok(a) => a,
        Err(e) => {
            return Err(e);
        },
    };
    let mut arguments: Vec<RuntimeType> = Vec::new();
    let mut i: usize = 0;
    while i < args_raw.len()
        invariant
            0 <= i <= args_raw@.len(),
            rt_seq_view(arguments@) =~= args_raw@.subrange(0, i as int).map_values(
                |s: String| parse_spec(s@),
            ),
            arguments@.len() == i,
        decreases args_raw@.len() - i,
    {
        let ty = match RuntimeType::from_str(args_raw[i].as_str()) {
            Ok(t) => t,
            Err(e) => {
                return Err(e);
            },
        };
        let ghost args0 = arguments@;
        arguments.push(ty);
        proof {
            lemma_rt_seq_view(args0);
            lemma_rt_seq_view(arguments@);
            let sub0 = args_raw@.subrange(0, i as int);
            let sub1 = args_raw@.subrange(0, i as int + 1);
            let f = |s: String| parse_spec(s@);
            assert forall|j: int| 0 <= j < i + 1 implies rt_seq_view(arguments@)[j] == sub1.map_values(
                f,
            )[j] by {
                assert(rt_seq_view(arguments@)[j] == rt_view(arguments@[j]));
                assert(sub1.map_values(f)[j] == f(sub1[j]));
                assert(sub1[j] == args_raw@[j]);
                if j < i {
                    assert(arguments@[j] == args0[j]);
                    assert(rt_seq_view(args0)[j] == rt_view(args0[j]));
                    assert(sub0.map_values(f)[j] == f(sub0[j]));
                    assert(sub0[j] == args_raw@[j]);
                } else {
                    assert(arguments@[j] == ty);
                }
            }
            assert(rt_seq_view(arguments@) =~= sub1.map_values(f));
        }
        i += 1;
    }
    proof {
        assert(args_raw@.subrange(0, i as int) =~= args_raw@);
    }
    Ok(EventDeclaration { name, arguments })
}

pub open spec fn entry_ty_wf(t: EntryType) -> bool {
    match t {
        EntryType::Plain(v) => v.is_resolved(),
        EntryType::SingleMap { key, value } => key.is_resolved() && value.is_resolved(),
        EntryType::DoubleMap { key1, key2, value } => key1.is_resolved() && key2.is_resolved()
            && value.is_resolved(),
    }
}

pub open spec fn entry_wf(e: EntrySchema) -> bool {
    e.name.is_resolved() && entry_ty_wf(e.ty)
}

pub open spec fn entries_wf(s: Seq<EntrySchema>) -> bool {
    forall|i: int| 0 <= i < s.len() ==> entry_wf(s[i])
}

/// The storage declaration one entry yields: shape from the tag, as many
/// keys as the shape has, and exactly one value type.
pub open spec fn entry_model(e: EntrySchema) -> StorageDeclModel {
    match e.ty {
        EntryType::Plain(v) => StorageDeclModel {
            name: e.name.value()@,
            shape: StorageShape::Plain,
            keys: Seq::empty(),
            value: parse_spec(v.value()@),
        },
        EntryType::SingleMap { key, value } => StorageDeclModel {
            name: e.name.value()@,
            shape: StorageShape::SingleMap,
            keys: seq![parse_spec(key.value()@)],
            value: parse_spec(value.value()@),
        },
        EntryType::DoubleMap { key1, key2, value } => StorageDeclModel {
            name: e.name.value()@,
            shape: StorageShape::DoubleMap,
            keys: seq![parse_spec(key1.value()@), parse_spec(key2.value()@)],
            value: parse_spec(value.value()@),
        },
    }
}

pub open spec fn entry_models(s: Seq<EntrySchema>) -> Seq<StorageDeclModel> {
    s.map_values(|e: EntrySchema| entry_model(e))
}

/// What the storage decoder produces: one declaration per entry, or the
/// unresolved-field error exactly when the prefix, the entry list, or any
/// entry field is still a placeholder.
pub open spec fn storage_decode_spec(s: StorageSchema) -> Result<Seq<StorageDeclModel>, ErrorModel> {
    if !s.prefix.is_resolved() {
        Err(unresolved_model())
    } else if !s.entries.is_resolved() {
        Err(unresolved_model())
    } else if !entries_wf(s.entries.value()@) {
        Err(unresolved_model())
    } else {
        Ok(entry_models(s.entries.value()@))
    }
}

/// Decode a module's whole storage sub-schema, entry by entry, in order.
/// Key count always matches the shape tag, by construction.
pub fn add_storage_to_module(storage_meta: &StorageSchema) -> (r: Result<
    Vec<StorageDeclaration>,
    Error,
>)
    ensures
        match r {
            Ok(ds) => storage_decode_spec(*storage_meta) == Ok::<
                Seq<StorageDeclModel>,
                ErrorModel,
            >(storage_view(ds@)),
            Err(e) => storage_decode_spec(*storage_meta) == Err::<
                Seq<StorageDeclModel>,
                ErrorModel,
            >(e@),
        },
{
    let _prefix = match storage_meta.prefix.as_resolved() {
        Ok(p) => p,
        Err(e) => {
            return Err(e);
        },
    };
    let entries = match storage_meta.entries.as_resolved() {
        Ok(a) => a,
        Err(e) => {
            return Err(e);
        },
    };
    let mut decls: Vec<StorageDeclaration> = Vec::new();
    let mut i: usize = 0;
    while i < entries.len()
        invariant
            0 <= i <= entries@.len(),
            forall|j: int| 0 <= j < i ==> entry_wf(entries@[j]),
            decls@.len() == i,
            storage_view(decls@) =~= entry_models(entries@.subrange(0, i as int)),
            storage_meta.prefix.is_resolved(),
            storage_meta.entries.is_resolved(),
            *entries == storage_meta.entries.value(),
        decreases entries@.len() - i,
    {
        let entry = &entries[i];
        let name = match entry.name.as_resolved() {
            Ok(n) => n.clone(),
            Err(e) => {
                return Err(e);
            },
        };
        let decl = match &entry.ty {
            EntryType::Plain(v) => {
                let vs = match v.as_resolved() {
                    Ok(s) => s,
                    Err(e) => {
                        return Err(e);
                    },
                };
                let value = match RuntimeType::from_str(vs.as_str()) {
                    Ok(t) => t,
                    Err(e) => {
                        return Err(e);
                    },
                };
                StorageDeclaration {
                    name,
                    shape: StorageShape::Plain,
                    keys: Vec::new(),
                    value,
                }
            },
            EntryType::SingleMap { key, value } => {
                let vs = match value.as_resolved() {
                    Ok(s) => s,
                    Err(e) => {
                        return Err(e);
                    },
                };
                let value_t = match RuntimeType::from_str(vs.as_str()) {
                    Ok(t) => t,
                    Err(e) => {
                        return Err(e);
                    },
                };
                let ks = match key.as_resolved() {
                    Ok(s) => s,
                    Err(e) => {
                        return Err(e);
                    },
                };
                let key_t = match RuntimeType::from_str(ks.as_str()) {
                    Ok(t) => t,
                    Err(e) => {
                        return Err(e);
                    },
                };
                let mut keys: Vec<RuntimeType> = Vec::new();
                keys.push(key_t);
                proof {
                    assert(keys@.drop_first() =~= Seq::<RuntimeType>::empty());
                    assert(rt_seq_view(Seq::<RuntimeType>::empty()) =~= Seq::<TypeModel>::empty());
                    assert(rt_seq_view(keys@) =~= seq![rt_view(key_t)]);
                }
                StorageDeclaration { name, shape: StorageShape::SingleMap, keys, value: value_t }
            },
            EntryType::DoubleMap { key1, key2, value } => {
                let vs = match value.as_resolved() {
                    Ok(s) => s,
                    Err(e) => {
                        return Err(e);
                    },
                };
                let value_t = match RuntimeType::from_str(vs.as_str()) {
                    Ok(t) => t,
                    Err(e) => {
                        return Err(e);
                    },
                };
                let k1s = match key1.as_resolved() {
                    Ok(s) => s,
                    Err(e) => {
                        return Err(e);
                    },
                };
                let key1_t = match RuntimeType::from_str(k1s.as_str()) {
                    Ok(t) => t,
                    Err(e) => {
                        return Err(e);
                    },
                };
                let k2s = match key2.as_resolved() {
                    Ok(s) => s,
                    Err(e) => {
                        return Err(e);
                    },
                };
                let key2_t = match RuntimeType::from_str(k2s.as_str()) {
                    Ok(t) => t,
                    Err(e) => {
                        return Err(e);
                    },
                };
                let mut keys: Vec<RuntimeType> = Vec::new();
                keys.push(key1_t);
                keys.push(key2_t);
                proof {
                    assert(keys@.drop_first().drop_first() =~= Seq::<RuntimeType>::empty());
                    assert(keys@.drop_first() =~= seq![key2_t]);
                    assert(rt_seq_view(Seq::<RuntimeType>::empty()) =~= Seq::<TypeModel>::empty());
                    assert(rt_seq_view(seq![key2_t]) =~= seq![rt_view(key2_t)]);
                    assert(rt_seq_view(keys@) =~= seq![rt_view(key1_t), rt_view(key2_t)]);
                }
                StorageDeclaration { name, shape: StorageShape::DoubleMap, keys, value: value_t }
            },
        };
        let ghost decls0 = decls@;
        let ghost decl_g = decl;
        decls.push(decl);
        proof {
            let sub0 = entries@.subrange(0, i as int);
            let sub1 = entries@.subrange(0, i as int + 1);
            assert(decl_g@ =~= entry_model(entries@[i as int]));
            assert forall|j: int| 0 <= j < i + 1 implies storage_view(decls@)[j] == entry_models(
                sub1,
            )[j] by {
                assert(storage_view(decls@)[j] == decls@[j]@);
                assert(entry_models(sub1)[j] == entry_model(sub1[j]));
                assert(sub1[j] == entries@[j]);
                if j < i {
                    assert(decls@[j] == decls0[j]);
                    assert(storage_view(decls0)[j] == decls0[j]@);
                    assert(entry_models(sub0)[j] == entry_model(sub0[j]));
                    assert(sub0[j] == entries@[j]);
                } else {
                    assert(decls@[j] == decl_g);
                }
            }
            assert(storage_view(decls@) =~= entry_models(sub1));
        }
        i += 1;
    }
    proof {
        assert(entries@.subrange(0, i as int) =~= entries@);
    }
    Ok(decls)
}

} // verus!
