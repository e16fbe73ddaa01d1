//! The derived, read-only declarations produced from one decode pass and
//! handed to the external emission sink, together with their ghost models.

use vstd::prelude::*;

use crate::types::RuntimeType;
use crate::types::TypeModel;
use crate::types::rt_seq_view;

verus! {

/// One call argument: name and parsed type.
pub struct CallArg {
    pub name: String,
    pub ty: RuntimeType,
}

/// One callable function: name and ordered argument list.
pub struct CallDeclaration {
    pub name: String,
    pub args: Vec<CallArg>,
}

/// One event: name and ordered, positional parameter types.
pub struct EventDeclaration {
    pub name: String,
    pub arguments: Vec<RuntimeType>,
}

/// The shape of a storage entry: no key, one key, or two keys.
#[derive(Clone, Copy, Debug, PartialEq, Eq, Structural)]
pub enum StorageShape {
    Plain,
    SingleMap,
    DoubleMap,
}

/// One storage entry: name, shape, its keys (as many as the shape has), and
/// its value type.
pub struct StorageDeclaration {
    pub name: String,
    pub shape: StorageShape,
    pub keys: Vec<RuntimeType>,
    pub value: RuntimeType,
}

/// Everything derived from one non-system module, in declaration order, plus
/// the distinct named types it depends on after exclusions.
pub struct ModuleDeclaration {
    pub name: String,
    pub name_snake: String,
    pub calls: Vec<CallDeclaration>,
    pub events: Vec<EventDeclaration>,
    pub storage: Vec<StorageDeclaration>,
    pub dependency_types: Vec<String>,
}

#[verifier::ext_equal]
pub struct CallArgModel {
    pub name: Seq<char>,
    pub ty: TypeModel,
}

#[verifier::ext_equal]
pub struct CallDeclModel {
    pub name: Seq<char>,
    pub args: Seq<CallArgModel>,
}

#[verifier::ext_equal]
pub struct EventDeclModel {
    pub name: Seq<char>,
    pub types: Seq<TypeModel>,
}

#[verifier::ext_equal]
pub struct StorageDeclModel {
    pub name: Seq<char>,
    pub shape: StorageShape,
    pub keys: Seq<TypeModel>,
    pub value: TypeModel,
}

#[verifier::ext_equal]
pub struct ModuleDeclModel {
    pub name: Seq<char>,
    pub name_snake: Seq<char>,
    pub calls: Seq<CallDeclModel>,
    pub events: Seq<EventDeclModel>,
    pub storage: Seq<StorageDeclModel>,
    pub deps: Set<Seq<char>>,
}

pub open spec fn call_args_view(args: Seq<CallArg>) -> Seq<CallArgModel> {
    args.map_values(|a: CallArg| a@)
}

pub open spec fn calls_view(cs: Seq<CallDeclaration>) -> Seq<CallDeclModel> {
    cs.map_values(|c: CallDeclaration| c@)
}

pub open spec fn events_view(es: Seq<EventDeclaration>) -> Seq<EventDeclModel> {
    es.map_values(|e: EventDeclaration| e@)
}

pub open spec fn storage_view(ss: Seq<StorageDeclaration>) -> Seq<StorageDeclModel> {
    ss.map_values(|s: StorageDeclaration| s@)
}

pub open spec fn modules_view(ds: Seq<ModuleDeclaration>) -> Seq<ModuleDeclModel> {
    ds.map_values(|d: ModuleDeclaration| d@)
}

impl View for CallArg {
    type V = CallArgModel;

    open spec fn view(&self) -> CallArgModel {
        CallArgModel { name: self.name@, ty: self.ty@ }
    }
}

impl View for CallDeclaration {
    type V = CallDeclModel;

    open spec fn view(&self) -> CallDeclModel {
        CallDeclModel { name: self.name@, args: call_args_view(self.args@) }
    }
}

impl View for EventDeclaration {
    type V = EventDeclModel;

    open spec fn view(&self) -> EventDeclModel {
        EventDeclModel { name: self.name@, types: rt_seq_view(self.arguments@) }
    }
}

impl View for StorageDeclaration {
    type V = StorageDeclModel;

    open spec fn view(&self) -> StorageDeclModel {
        StorageDeclModel {
            name: self.name@,
            shape: self.shape,
            keys: rt_seq_view(self.keys@),
            value: self.value@,
        }
    }
}

impl View for ModuleDeclaration {
    type V = ModuleDeclModel;

    open spec fn view(&self) -> ModuleDeclModel {
        ModuleDeclModel {
            name: self.name@,
            name_snake: self.name_snake@,
            calls: calls_view(self.calls@),
            events: events_view(self.events@),
            storage: storage_view(self.storage@),
            deps: self.dependency_types.deep_view().to_set(),
        }
    }
}

} // verus!
