//! Field errors and the result of validating a form.

use crate::backend::champion::{anyhow_message, anyhow_text, store_error_message, store_error_text};
use crate::text::{same_text, text_views};
use vstd::prelude::*;
use vstd::string::StringExecFns;

verus! {

/// One complaint about one field of a form.
#[derive(Clone, Debug)]
pub struct FieldError {
    pub field: String,
    pub message: String,
}

/// What a `FieldError` says.
pub struct FieldErrorView {
    pub field: Seq<char>,
    pub message: Seq<char>,
}

impl View for FieldError {
    type V = FieldErrorView;

    open spec fn view(&self) -> FieldErrorView {
        FieldErrorView { field: self.field@, message: self.message@ }
    }
}

/// What a list of field errors says, in its order.
pub open spec fn error_views(errors: Seq<FieldError>) -> Seq<FieldErrorView> {
    Seq::new(errors.len(), |i: int| errors[i]@)
}

/// The error of the given message on the given field.
pub open spec fn field_error(field: Seq<char>, message: Seq<char>) -> FieldErrorView {
    FieldErrorView { field, message }
}

impl FieldError {
    pub fn new(field: &str, message: String) -> (r: FieldError)
        ensures
            r@ == field_error(field@, message@),
    {
        FieldError { field: field.to_owned(), message }
    }
}

/// The errors of one field, in the order in which they came.
#[derive(Clone, Debug)]
pub struct FieldEntry {
    name: String,
    errors: Vec<FieldError>,
}

/// The errors of a form by field name.
#[derive(Clone, Debug)]
pub struct FieldMap {
    entries: Vec<FieldEntry>,
}

/// The errors gathered per field: what a `FieldMap` stands for.
pub type FieldErrors = Map<Seq<char>, Seq<FieldErrorView>>;

/// The errors per field after one more error has come.
pub open spec fn with_error(fields: FieldErrors, error: FieldErrorView) -> FieldErrors {
    if fields.contains_key(error.field) {
        fields.insert(error.field, fields[error.field].push(error))
    } else {
        fields.insert(error.field, seq![error])
    }
}

/// The errors per field after a run of errors has come, one after the other.
pub open spec fn with_errors(fields: FieldErrors, errors: Seq<FieldErrorView>) -> FieldErrors
    decreases errors.len(),
{
    if errors.len() == 0 {
        fields
    } else {
        with_error(with_errors(fields, errors.drop_last()), errors.last())
    }
}

impl FieldMap {
    spec fn names(self, k: Seq<char>) -> bool {
        exists|i: int| 0 <= i < self.entries@.len() && self.entries@[i].name@ == k
    }

    /// Whether the entry at `i` is the first of the given name.
    spec fn first_at(self, k: Seq<char>, i: int) -> bool {
        &&& 0 <= i < self.entries@.len()
        &&& self.entries@[i].name@ == k
        &&& forall|j: int| 0 <= j < i ==> self.entries@[j].name@ != k
    }

    spec fn place(self, k: Seq<char>) -> int {
        choose|i: int| self.first_at(k, i)
    }

    /// A name that occurs has a first entry, and `place` is that entry.
    proof fn lemma_place(self, k: Seq<char>)
        requires
            self.names(k),
        ensures
            self.first_at(k, self.place(k)),
    {
        let some = choose|i: int| 0 <= i < self.entries@.len() && self.entries@[i].name@ == k;
        self.lemma_first_before(k, some);
    }

    proof fn lemma_first_before(self, k: Seq<char>, i: int)
        requires
            0 <= i < self.entries@.len(),
            self.entries@[i].name@ == k,
        ensures
            exists|f: int| self.first_at(k, f),
        decreases i,
    {
        if exists|j: int| 0 <= j < i && self.entries@[j].name@ == k {
            let j = choose|j: int| 0 <= j < i && self.entries@[j].name@ == k;
            self.lemma_first_before(k, j);
        } else {
            assert(self.first_at(k, i));
        }
    }

    /// The first entry of a name is the one that `place` gives.
    proof fn lemma_place_is(self, k: Seq<char>, i: int)
        requires
            self.first_at(k, i),
        ensures
            self.names(k),
            self.place(k) == i,
    {
        let p = self.place(k);
        assert(self.first_at(k, p));
        if p < i {
            assert(self.entries@[p].name@ != k);
        }
        if i < p {
            assert(self.entries@[i].name@ != k);
        }
    }

    pub fn new() -> (r: FieldMap)
        ensures
            r@ == FieldErrors::empty(),
    {
        let r = FieldMap { entries: Vec::new() };
        assert(r@ =~= FieldErrors::empty());
        r
    }

    /// The place of the first entry of the given name.
    fn find(&self, field: &str) -> (r: Option<usize>)
        ensures
            match r {
                Some(i) => self.first_at(field@, i as int),
                None => !self.names(field@),
            },
    {
        let mut i: usize = 0;
        while i < self.entries.len()
            invariant
                i <= self.entries@.len(),
                forall|j: int| 0 <= j < i ==> self.entries@[j].name@ != field@,
            decreases self.entries@.len() - i,
        {
            if same_text(self.entries[i].name.as_str(), field) {
                return Some(i);
            }
            i = i + 1;
        }
        None
    }

    /// The errors of the given field, if it has any.
    pub fn get(&self, field: &str) -> (r: Option<&Vec<FieldError>>)
        ensures
            match r {
                Some(errors) => self@.contains_key(field@) && error_views(errors@) == self@[field@],
                None => !self@.contains_key(field@),
            },
    {
        match self.find(field) {
            Some(i) => {
                proof {
                    self.lemma_place_is(field@, i as int);
                }
                Some(&self.entries[i].errors)
            },
            None => None,
        }
    }

    /// Whether the given field has an error.
    pub fn contains_key(&self, field: &str) -> (r: bool)
        ensures
            r == self@.contains_key(field@),
    {
        let found = self.find(field);
        proof {
            if let Some(i) = found {
                self.lemma_place_is(field@, i as int);
            }
        }
        found.is_some()
    }

    /// Whether no field has an error.
    pub fn is_empty(&self) -> (r: bool)
        ensures
            r == (self@ == FieldErrors::empty()),
            r == (self.count() == 0),
    {
        let r = self.entries.len() == 0;
        proof {
            if r {
                assert(self@ =~= FieldErrors::empty());
            } else {
                assert(self.names(self.entries@[0].name@));
                assert(self@.contains_key(self.entries@[0].name@));
            }
        }
        r
    }

    /// The number of entries, one for each field that an error came for.
    pub fn len(&self) -> (r: usize)
        ensures
            r == self.count(),
            r == 0 <==> self@ == FieldErrors::empty(),
    {
        let empty = self.is_empty();
        assert(empty == (self.entries@.len() == 0));
        self.entries.len()
    }

    /// The number of entries.
    pub closed spec fn count(&self) -> nat {
        self.entries@.len()
    }

    /// The fields that an error came for, in the order in which their first
    /// error came.
    pub closed spec fn order(&self) -> Seq<Seq<char>> {
        Seq::new(self.entries@.len(), |i: int| self.entries@[i].name@)
    }

    /// The fields that an error came for, in the order in which their first
    /// error came.
    pub fn field_names(&self) -> (r: Vec<String>)
        ensures
            text_views(r@) == self.order(),
            r@.len() == self.count(),
            forall|k: Seq<char>| self@.contains_key(k) <==> self.order().contains(k),
    {
        let mut names: Vec<String> = Vec::new();
        let mut i: usize = 0;
        while i < self.entries.len()
            invariant
                i <= self.entries@.len(),
                names@.len() == i,
                forall|j: int| 0 <= j < i ==> names@[j]@ == self.entries@[j].name@,
            decreases self.entries@.len() - i,
        {
            names.push(self.entries[i].name.clone());
            i = i + 1;
        }
        proof {
            assert(text_views(names@) =~= self.order());
            assert forall|k: Seq<char>| self@.contains_key(k) <==> text_views(names@).contains(
                k,
            ) by {
                if self.names(k) {
                    let j = choose|j: int|
                        0 <= j < self.entries@.len() && self.entries@[j].name@ == k;
                    assert(text_views(names@)[j] == k);
                }
                if text_views(names@).contains(k) {
                    let j = choose|j: int|
                        0 <= j < text_views(names@).len() && text_views(names@)[j] == k;
                    assert(self.entries@[j].name@ == k);
                }
            }
        }
        names
    }

    /// Adds an error to the errors of its field.
    pub fn push(&mut self, error: FieldError)
        ensures
            final(self)@ == with_error(old(self)@, error@),
    {
        let ghost before = *self;
        let ghost shown = error@;
        match self.find(error.field.as_str()) {
            Some(i) => {
                self.entries[i].errors.push(error);
                proof {
                    before.lemma_place_is(shown.field, i as int);
                    assert(self.entries@.len() == before.entries@.len());
                    assert(forall|j: int|
                        0 <= j < self.entries@.len() ==> self.entries@[j].name@
                            == before.entries@[j].name@);
                    assert forall|k: Seq<char>| self.names(k) == before.names(k) by {
                        if before.names(k) {
                            let j = choose|j: int|
                                0 <= j < before.entries@.len() && before.entries@[j].name@ == k;
                            assert(self.entries@[j].name@ == k);
                        }
                        if self.names(k) {
                            let j = choose|j: int|
                                0 <= j < self.entries@.len() && self.entries@[j].name@ == k;
                            assert(before.entries@[j].name@ == k);
                        }
                    }
                    assert forall|k: Seq<char>| self.names(k) implies #[trigger] self@[k]
                        == with_error(before@, shown)[k] by {
                        before.lemma_place(k);
                        let j = before.place(k);
                        assert(self.first_at(k, j));
                        self.lemma_place_is(k, j);
                        if k == shown.field {
                            assert(j == i);
                            assert(error_views(self.entries@[j].errors@) =~= error_views(
                                before.entries@[j].errors@,
                            ).push(shown));
                        } else {
                            assert(j != i);
                        }
                    }
                    assert(self@ =~= with_error(before@, shown));
                }
            },
            None => {
                let name = error.field.clone();
                let mut errors: Vec<FieldError> = Vec::new();
                errors.push(error);
                self.entries.push(FieldEntry { name, errors });
                proof {
                    let n = before.entries@.len() as int;
                    assert(self.entries@[n].name@ == shown.field);
                    assert(forall|j: int| 0 <= j < n ==> self.entries@[j] == before.entries@[j]);
                    assert(self.first_at(shown.field, n));
                    assert forall|k: Seq<char>| self.names(k) == (before.names(k) || k
                        == shown.field) by {
                        if before.names(k) {
                            let j = choose|j: int|
                                0 <= j < before.entries@.len() && before.entries@[j].name@ == k;
                            assert(self.entries@[j].name@ == k);
                        }
                        if k == shown.field {
                            assert(self.entries@[n].name@ == k);
                        }
                        if self.names(k) && k != shown.field {
                            let j = choose|j: int|
                                0 <= j < self.entries@.len() && self.entries@[j].name@ == k;
                            assert(before.entries@[j].name@ == k);
                        }
                    }
                    assert forall|k: Seq<char>| self.names(k) implies #[trigger] self@[k]
                        == with_error(before@, shown)[k] by {
                        if k == shown.field {
                            self.lemma_place_is(k, n);
                            assert(error_views(self.entries@[n].errors@) =~= seq![shown]);
                        } else {
                            before.lemma_place(k);
                            let j = before.place(k);
                            assert(self.first_at(k, j));
                            self.lemma_place_is(k, j);
                        }
                    }
                    assert(self@ =~= with_error(before@, shown));
                }
            },
        }
    }
}

impl View for FieldMap {
    type V = FieldErrors;

    closed spec fn view(&self) -> FieldErrors {
        Map::new(
            |k: Seq<char>| self.names(k),
            |k: Seq<char>| error_views(self.entries@[self.place(k)].errors@),
        )
    }
}

/// The text of one error: its field and its message.
pub open spec fn error_text(error: FieldErrorView) -> Seq<char> {
    error.field + "="@ + error.message
}

/// The text of the errors of one field, between commas.
pub open spec fn errors_text(errors: Seq<FieldErrorView>) -> Seq<char>
    decreases errors.len(),
{
    if errors.len() == 0 {
        Seq::empty()
    } else if errors.len() == 1 {
        error_text(errors[0])
    } else {
        errors_text(errors.drop_last()) + ", "@ + error_text(errors.last())
    }
}

/// The text of the errors of the given fields, field by field, between
/// semicolons.
pub open spec fn fields_text(fields: FieldErrors, names: Seq<Seq<char>>) -> Seq<char>
    decreases names.len(),
{
    if names.len() == 0 {
        Seq::empty()
    } else if names.len() == 1 {
        errors_text(fields[names[0]])
    } else {
        fields_text(fields, names.drop_last()) + "; "@ + errors_text(fields[names.last()])
    }
}

/// The verdict in a line.
pub open spec fn described(v: FormValidationView, order: Seq<Seq<char>>) -> Seq<char> {
    "FormValidation error was "@ + (if v.success {
        "true"@
    } else {
        "false"@
    }) + ", affected fields: "@ + fields_text(v.fields, order)
}

/// The errors of one field in a line.
fn errors_line(errors: &Vec<FieldError>) -> (r: String)
    ensures
        r@ == errors_text(error_views(errors@)),
{
    let ghost all = error_views(errors@);
    let mut line = String::new();
    assert(all.take(0) =~= Seq::<FieldErrorView>::empty());
    let mut i: usize = 0;
    while i < errors.len()
        invariant
            i <= errors@.len(),
            all == error_views(errors@),
            line@ == errors_text(all.take(i as int)),
        decreases errors@.len() - i,
    {
        proof {
            let next = all.take(i as int + 1);
            assert(next.drop_last() =~= all.take(i as int));
            assert(next.last() == errors@[i as int]@);
            assert(next.len() == 1 ==> next[0] == errors@[i as int]@);
        }
        if i > 0 {
            line.append(", ");
        }
        line.append(errors[i].field.as_str());
        line.append("=");
        line.append(errors[i].message.as_str());
        assert(line@ =~= errors_text(all.take(i as int + 1)));
        i = i + 1;
    }
    assert(all.take(i as int) =~= all);
    line
}

/// The verdict on a form: the errors per field, an overall message, and
/// whether the form is accepted.
#[derive(Clone, Debug)]
pub struct FormValidation {
    pub fields: FieldMap,
    pub msg: Option<String>,
    success: bool,
}

/// What a `FormValidation` says.
pub struct FormValidationView {
    pub fields: FieldErrors,
    pub msg: Option<Seq<char>>,
    pub success: bool,
}

impl FormValidationView {
    /// The verdict of a form that nothing has been said about.
    pub open spec fn fresh() -> FormValidationView {
        FormValidationView { fields: FieldErrors::empty(), msg: None, success: true }
    }

    /// The verdict after one more field error.
    pub open spec fn pushed(self, error: FieldErrorView) -> FormValidationView {
        FormValidationView {
            fields: with_error(self.fields, error),
            msg: self.msg,
            success: false,
        }
    }

    /// The verdict after a run of field errors. Without errors it is unchanged.
    pub open spec fn pushed_all(self, errors: Seq<FieldErrorView>) -> FormValidationView {
        FormValidationView {
            fields: with_errors(self.fields, errors),
            msg: self.msg,
            success: self.success && errors.len() == 0,
        }
    }

    /// The verdict after the overall message was set or taken away.
    pub open spec fn with_message(self, msg: Option<Seq<char>>) -> FormValidationView {
        FormValidationView {
            fields: self.fields,
            msg,
            success: msg is None && self.fields == FieldErrors::empty(),
        }
    }

    /// A form is accepted exactly when nothing was held against it.
    pub open spec fn consistent(self) -> bool {
        self.success <==> (self.fields == FieldErrors::empty() && self.msg is None)
    }
}

impl View for FormValidation {
    type V = FormValidationView;

    closed spec fn view(&self) -> FormValidationView {
        FormValidationView {
            fields: self.fields@,
            msg: match self.msg {
                Some(m) => Some(m@),
                None => None,
            },
            success: self.success,
        }
    }
}

impl Default for FormValidation {
    fn default() -> (r: FormValidation)
        ensures
            r@ == FormValidationView::fresh(),
    {
        FormValidation { fields: FieldMap::new(), msg: None, success: true }
    }
}

impl FormValidation {
    /// Records an error; the form is no longer accepted.
    pub fn push(&mut self, error: FieldError)
        ensures
            final(self)@ == old(self)@.pushed(error@),
    {
        self.success = false;
        self.fields.push(error);
    }

    /// Whether nothing was held against the form.
    pub fn is_success(&self) -> (r: bool)
        ensures
            r == self@.success,
    {
        self.success
    }

    /// Sets the overall message, which rejects the form, or takes it away,
    /// which leaves the field errors to decide.
    pub fn set_error(&mut self, msg: Option<&str>) -> (r: &Self)
        ensures
            final(self)@ == old(self)@.with_message(
                match msg {
                    Some(m) => Some(m@),
                    None => None,
                },
            ),
            *r == *final(self),
    {
        match msg {
            Some(err_msg) => {
                self.success = false;
                self.msg = Some(err_msg.to_owned());
            },
            None => {
                self.success = self.fields.is_empty();
                self.msg = None;
            },
        }
        self
    }

    /// The verdict that rejects a form for the given reason alone.
    pub fn rejected(msg: &str) -> (r: FormValidation)
        ensures
            r@ == FormValidationView::fresh().with_message(Some(msg@)),
            !r@.success,
    {
        let mut r = FormValidation::default();
        let _ = r.set_error(Some(msg));
        r
    }

    /// The verdict on a batch that the store did not take.
    pub fn from_store_error(e: &taskchampion::Error) -> (r: FormValidation)
        ensures
            r@ == FormValidationView::fresh().with_message(Some(store_error_text(*e))),
            !r@.success,
    {
        FormValidation::rejected(store_error_message(e).as_str())
    }

    /// The verdict on a form that failed before it was looked at.
    pub fn from_error(e: &anyhow::Error) -> (r: FormValidation)
        ensures
            r@ == FormValidationView::fresh().with_message(Some(anyhow_text(*e))),
            !r@.success,
    {
        FormValidation::rejected(anyhow_message(e).as_str())
    }

    /// The fields that an error came for, in the order in which their first
    /// error came.
    pub closed spec fn order(&self) -> Seq<Seq<char>> {
        self.fields.order()
    }

    /// The verdict in a line: whether the form is accepted, and the errors
    /// field by field.
    pub fn to_string(&self) -> (r: String)
        ensures
            r@ == described(self@, self.order()),
    {
        let names = self.fields.field_names();
        let ghost order = text_views(names@);
        let mut field_list = String::new();
        assert(order.take(0) =~= Seq::<Seq<char>>::empty());
        let mut i: usize = 0;
        while i < names.len()
            invariant
                i <= names@.len(),
                order == text_views(names@),
                order == self.fields.order(),
                forall|k: Seq<char>| self.fields@.contains_key(k) <==> order.contains(k),
                field_list@ == fields_text(self.fields@, order.take(i as int)),
            decreases names@.len() - i,
        {
            proof {
                let next = order.take(i as int + 1);
                assert(next.drop_last() =~= order.take(i as int));
                assert(next.last() == names@[i as int]@);
                assert(order[i as int] == names@[i as int]@);
                assert(order.contains(names@[i as int]@));
            }
            if i > 0 {
                field_list.append("; ");
            }
            match self.fields.get(names[i].as_str()) {
                Some(errors) => {
                    field_list.append(errors_line(errors).as_str());
                },
                None => {},
            }
            assert(field_list@ =~= fields_text(self.fields@, order.take(i as int + 1)));
            i = i + 1;
        }
        assert(order.take(i as int) =~= order);
        let mut line = String::from_str("FormValidation error was ");
        if self.success {
            line.append("true");
        } else {
            line.append("false");
        }
        line.append(", affected fields: ");
        line.append(field_list.as_str());
        line
    }

    /// Whether the given field has an error.
    pub fn has_error(&self, field: &str) -> (r: bool)
        ensures
            r == self@.fields.contains_key(field@),
    {
        self.fields.contains_key(field)
    }
}

/// Pushing no error changes nothing, and pushing one is pushing a run of one.
pub proof fn lemma_pushed_one(v: FormValidationView, error: FieldErrorView)
    ensures
        v.pushed_all(Seq::empty()) == v,
        v.pushed(error) == v.pushed_all(seq![error]),
{
    assert(seq![error].drop_last() =~= Seq::<FieldErrorView>::empty());
    assert(with_errors(v.fields, seq![error]) == with_error(
        with_errors(v.fields, seq![error].drop_last()),
        seq![error].last(),
    ));
}

/// Pushing two runs of errors in turn is pushing the runs joined.
pub proof fn lemma_pushed_all_joined(
    v: FormValidationView,
    first: Seq<FieldErrorView>,
    second: Seq<FieldErrorView>,
)
    ensures
        v.pushed_all(first).pushed_all(second) == v.pushed_all(first + second),
    decreases second.len(),
{
    if second.len() == 0 {
        assert(first + second =~= first);
    } else {
        lemma_pushed_all_joined(v, first, second.drop_last());
        assert((first + second).drop_last() =~= first + second.drop_last());
        assert((first + second).last() == second.last());
    }
}

/// Every operation keeps the verdict consistent with what was recorded.
pub proof fn lemma_consistency_kept(
    v: FormValidationView,
    error: FieldErrorView,
    msg: Option<Seq<char>>,
)
    requires
        v.consistent(),
    ensures
        FormValidationView::fresh().consistent(),
        v.pushed(error).consistent(),
        v.with_message(msg).consistent(),
{
    assert(with_error(v.fields, error).contains_key(error.field));
    assert(!FieldErrors::empty().contains_key(error.field));
}

} // verus!
