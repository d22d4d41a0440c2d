use vstd::prelude::*;
use vstd::string::StringExecFns;
use crate::bindings::FunctionPointer;
use crate::error::{Error, ErrorType};
use crate::expressions::function::{Function, FunctionView};

verus! {

/// Whether some binding in `entries` carries `label`.
pub open spec fn has_label(entries: Seq<FunctionView>, label: Seq<char>) -> bool {
    exists|i: int| 0 <= i < entries.len() && #[trigger] entries[i].label == label
}

/// The binding in `entries` that carries `label`: the first one, if any.
pub open spec fn spec_lookup(entries: Seq<FunctionView>, label: Seq<char>) -> Option<FunctionView>
    decreases entries.len(),
{
    if entries.len() == 0 {
        None
    } else if entries[0].label == label {
        Some(entries[0])
    } else {
        spec_lookup(entries.drop_first(), label)
    }
}

/// Whether no label occurs twice in `entries`.
pub open spec fn labels_distinct(entries: Seq<FunctionView>) -> bool {
    forall|i: int, j: int|
        0 <= i < j < entries.len() ==> (#[trigger] entries[i]).label != (#[trigger] entries[j]).label
}

/// A requested binding as contracts speak of it.
pub open spec fn request_view(request: (&str, FunctionPointer, usize)) -> FunctionView {
    FunctionView { label: request.0@, function: request.1, num_inputs: request.2 }
}

/// Registering `requests` in order on top of `entries`: each is appended
/// unless its label is taken, and the first whose label is taken stops the
/// registration. Gives the entries afterwards and the label that was
/// refused, if one was.
pub open spec fn spec_register(
    entries: Seq<FunctionView>,
    requests: Seq<(&str, FunctionPointer, usize)>,
) -> (Seq<FunctionView>, Option<Seq<char>>)
    decreases requests.len(),
{
    if requests.len() == 0 {
        (entries, None)
    } else if has_label(entries, requests[0].0@) {
        (entries, Some(requests[0].0@))
    } else {
        spec_register(entries.push(request_view(requests[0])), requests.drop_first())
    }
}

/// The bindings known for a value kind, found by label. No label occurs twice.
#[derive(Debug)]
pub struct BindingMap {
    pub entries: Vec<Function>,
}

impl View for BindingMap {
    type V = Seq<FunctionView>;

    open spec fn view(&self) -> Seq<FunctionView> {
        Seq::new(self.entries@.len(), |i: int| self.entries@[i]@)
    }
}

/// `spec_lookup` finds a binding exactly where the label occurs.
proof fn lemma_lookup_some(entries: Seq<FunctionView>, label: Seq<char>)
    ensures
        spec_lookup(entries, label).is_some() == has_label(entries, label),
        spec_lookup(entries, label) matches Some(f) ==> f.label == label && entries.contains(f),
    decreases entries.len(),
{
    if entries.len() == 0 {
    } else if entries[0].label == label {
        assert(entries[0].label == label);
    } else {
        let rest = entries.drop_first();
        lemma_lookup_some(rest, label);
        if has_label(rest, label) {
            let i = choose|i: int| 0 <= i < rest.len() && #[trigger] rest[i].label == label;
            assert(entries[i + 1].label == label);
            let f = spec_lookup(rest, label).unwrap();
            let k = choose|k: int| 0 <= k < rest.len() && rest[k] == f;
            assert(entries[k + 1] == f);
        }
        if has_label(entries, label) {
            let i = choose|i: int| 0 <= i < entries.len() && #[trigger] entries[i].label == label;
            assert(rest[i - 1].label == label);
        }
    }
}

/// Where `entries[i]` is the first binding with its label, `spec_lookup` finds it.
proof fn lemma_lookup_first(entries: Seq<FunctionView>, label: Seq<char>, i: int)
    requires
        0 <= i < entries.len(),
        entries[i].label == label,
        forall|j: int| 0 <= j < i ==> (#[trigger] entries[j]).label != label,
    ensures
        spec_lookup(entries, label) == Some(entries[i]),
    decreases entries.len(),
{
    if i > 0 {
        let rest = entries.drop_first();
        assert(entries[0].label != label);
        assert forall|j: int| 0 <= j < i - 1 implies (#[trigger] rest[j]).label != label by {
            assert(entries[j + 1].label != label);
        }
        lemma_lookup_first(rest, label, i - 1);
    }
}

impl BindingMap {
    pub open spec fn wf(&self) -> bool {
        labels_distinct(self@)
    }

    /// A registry without bindings.
    pub fn new() -> (m: BindingMap)
        ensures
            m.wf(),
            m@ == Seq::<FunctionView>::empty(),
    {
        let m = BindingMap { entries: Vec::new() };
        assert(m@ =~= Seq::<FunctionView>::empty());
        m
    }

    /// The place of the binding that carries `label`.
    fn position(&self, label: &str) -> (r: Option<usize>)
        ensures
            match r {
                Some(i) => i < self@.len() && self@[i as int].label == label@ && forall|j: int|
                    0 <= j < i ==> (#[trigger] self@[j]).label != label@,
                None => !has_label(self@, label@),
            },
    {
        let wanted = String::from_str(label);
        let mut i: usize = 0;
        while i < self.entries.len()
            invariant
                i <= self.entries@.len(),
                wanted@ == label@,
                forall|j: int| 0 <= j < i ==> (#[trigger] self@[j]).label != label@,
            decreases self.entries@.len() - i,
        {
            if self.entries[i].label == wanted {
                return Some(i);
            }
            i += 1;
        }
        None
    }

    /// Whether a binding carries `label`.
    pub fn contains_key(&self, label: &str) -> (r: bool)
        ensures
            r == has_label(self@, label@),
    {
        self.position(label).is_some()
    }

    /// The binding that carries `label`, if there is one.
    pub fn get_binding(&self, label: &str) -> (r: Option<Function>)
        ensures
            match r {
                Some(f) => spec_lookup(self@, label@) == Some(f@),
                None => spec_lookup(self@, label@).is_none(),
            },
    {
        proof {
            lemma_lookup_some(self@, label@);
        }
        match self.position(label) {
            Some(i) => {
                proof {
                    lemma_lookup_first(self@, label@, i as int);
                }
                Some(self.entries[i].duplicate())
            },
            None => None,
        }
    }

    /// How many bindings are registered.
    pub fn len(&self) -> (n: usize)
        ensures
            n == self@.len(),
    {
        self.entries.len()
    }

    /// Registers `requests` in order. A request whose label is already taken,
    /// by a built-in, by an earlier registration or by an earlier request of
    /// the same call, is refused with a `BindingError`; the requests before it
    /// stay registered, those after it are not looked at.
    pub fn register_bindings(&mut self, requests: &[(&str, FunctionPointer, usize)]) -> (r: Result<
        (),
        Error,
    >)
        requires
            old(self).wf(),
        ensures
            final(self).wf(),
            final(self)@ == spec_register(old(self)@, requests@).0,
            match r {
                Ok(()) => spec_register(old(self)@, requests@).1.is_none(),
                Err(e) => e.error_type == ErrorType::BindingError && (spec_register(
                    old(self)@,
                    requests@,
                ).1 matches Some(label) && e.message@ == "Binding already registered for label "@ + label),
            },
    {
        let mut i: usize = 0;
        assert(requests@.skip(0) =~= requests@);
        while i < requests.len()
            invariant
                i <= requests@.len(),
                self.wf(),
                spec_register(old(self)@, requests@) == spec_register(self@, requests@.skip(i as int)),
            decreases requests@.len() - i,
        {
            let (label, function, num_inputs) = requests[i];
            let ghost before = self@;
            let ghost rest = requests@.skip(i as int);
            assert(rest[0] == requests@[i as int]);
            assert(rest.drop_first() =~= requests@.skip(i + 1));
            if self.contains_key(label) {
                return Err(
                    Error::with_detail(
                        ErrorType::BindingError,
                        "Binding already registered for label ",
                        label,
                    ),
                );
            }
            self.entries.push(Function::new(label, function, num_inputs));
            assert(self@ =~= before.push(request_view(requests@[i as int])));
            assert(labels_distinct(self@)) by {
                assert forall|a: int, b: int| 0 <= a < b < self@.len() implies (#[trigger] self@[a]).label
                    != (#[trigger] self@[b]).label by {
                    if b == before.len() {
                        assert(before[a].label != label@);
                    } else {
                        assert(before[a].label != before[b].label);
                    }
                }
            }
            i += 1;
        }
        assert(requests@.skip(i as int).len() == 0);
        Ok(())
    }
}

} // verus!
