//! The query that selects the tasks of a list: a report, a status, a
//! priority, tags, a project and free filter words.

use crate::backend::champion::{line_words, split_words};
use crate::text::{
    extend_texts, holds_text, push_text, same_text, starts_with, starts_with_char, text_of,
    text_views,
};
use crate::TWGlobalState;
use vstd::prelude::*;
use vstd::std_specs::convert::FromSpecImpl;

verus! {

/// A change that a request may ask of a query.
pub enum TQUpdateTypes {
    Priority(String),
    Status(String),
    Report(String),
}

/// The reports of the task list.
#[derive(Debug, Clone, Copy, PartialEq, Eq, Structural)]
pub enum TaskReport {
    Next,
    New,
    Ready,
    All,
    NotSet,
}

/// The priorities that a query may ask for.
#[derive(Debug, Clone, Copy, PartialEq, Eq, Structural)]
pub enum TaskPriority {
    High,
    Medium,
    Low,
    NotSet,
}

/// The statuses that a query may ask for.
#[derive(Debug, Clone, Copy, PartialEq, Eq, Structural)]
pub enum TaskStatus {
    Pending,
    Completed,
    Waiting,
    NotSet,
}

/// The report that a text names.
pub open spec fn report_named(value: Seq<char>) -> TaskReport {
    if value == "ready"@ {
        TaskReport::Ready
    } else if value == "new"@ {
        TaskReport::New
    } else if value == "next"@ {
        TaskReport::Next
    } else if value == "all"@ {
        TaskReport::All
    } else {
        TaskReport::NotSet
    }
}

/// The priority that a text names, as a letter or as a filter word.
pub open spec fn priority_named(value: Seq<char>) -> TaskPriority {
    if value == "H"@ || value == "priority:H"@ {
        TaskPriority::High
    } else if value == "M"@ || value == "priority:M"@ {
        TaskPriority::Medium
    } else if value == "L"@ || value == "priority:L"@ {
        TaskPriority::Low
    } else {
        TaskPriority::NotSet
    }
}

/// The status that a text names, as a name or as a filter word.
pub open spec fn status_named(value: Seq<char>) -> TaskStatus {
    if value == "pending"@ || value == "status:pending"@ {
        TaskStatus::Pending
    } else if value == "completed"@ || value == "status:completed"@ {
        TaskStatus::Completed
    } else if value == "waiting"@ || value == "status:waiting"@ {
        TaskStatus::Waiting
    } else {
        TaskStatus::NotSet
    }
}

impl TaskReport {
    /// The word of the report; none where no report is set.
    pub open spec fn word(self) -> Seq<char> {
        match self {
            TaskReport::Next => "next"@,
            TaskReport::New => "new"@,
            TaskReport::Ready => "ready"@,
            TaskReport::All => "all"@,
            TaskReport::NotSet => ""@,
        }
    }

    pub fn to_string(&self) -> (r: String)
        ensures
            r@ == self.word(),
    {
        match self {
            TaskReport::Next => "next".to_owned(),
            TaskReport::New => "new".to_owned(),
            TaskReport::Ready => "ready".to_owned(),
            TaskReport::All => "all".to_owned(),
            TaskReport::NotSet => "".to_owned(),
        }
    }
}

impl From<String> for TaskReport {
    fn from(value: String) -> (r: TaskReport) {
        let text = value.as_str();
        if same_text(text, "ready") {
            TaskReport::Ready
        } else if same_text(text, "new") {
            TaskReport::New
        } else if same_text(text, "next") {
            TaskReport::Next
        } else if same_text(text, "all") {
            TaskReport::All
        } else {
            TaskReport::NotSet
        }
    }
}

impl FromSpecImpl<String> for TaskReport {
    open spec fn obeys_from_spec() -> bool {
        true
    }

    open spec fn from_spec(value: String) -> TaskReport {
        report_named(value@)
    }
}

impl TaskPriority {
    /// The filter word of the priority; none where no priority is set.
    pub open spec fn word(self) -> Seq<char> {
        match self {
            TaskPriority::High => "priority:H"@,
            TaskPriority::Medium => "priority:M"@,
            TaskPriority::Low => "priority:L"@,
            TaskPriority::NotSet => ""@,
        }
    }

    pub fn to_string(&self) -> (r: String)
        ensures
            r@ == self.word(),
    {
        match self {
            TaskPriority::High => "priority:H".to_owned(),
            TaskPriority::Medium => "priority:M".to_owned(),
            TaskPriority::Low => "priority:L".to_owned(),
            TaskPriority::NotSet => "".to_owned(),
        }
    }
}

impl From<String> for TaskPriority {
    fn from(value: String) -> (r: TaskPriority) {
        let text = value.as_str();
        if same_text(text, "H") || same_text(text, "priority:H") {
            TaskPriority::High
        } else if same_text(text, "M") || same_text(text, "priority:M") {
            TaskPriority::Medium
        } else if same_text(text, "L") || same_text(text, "priority:L") {
            TaskPriority::Low
        } else {
            TaskPriority::NotSet
        }
    }
}

impl FromSpecImpl<String> for TaskPriority {
    open spec fn obeys_from_spec() -> bool {
        true
    }

    open spec fn from_spec(value: String) -> TaskPriority {
        priority_named(value@)
    }
}

impl TaskStatus {
    /// The filter word of the status; none where no status is set.
    pub open spec fn word(self) -> Seq<char> {
        match self {
            TaskStatus::Pending => "status:pending"@,
            TaskStatus::Completed => "status:completed"@,
            TaskStatus::Waiting => "status:waiting"@,
            TaskStatus::NotSet => ""@,
        }
    }

    pub fn to_string(&self) -> (r: String)
        ensures
            r@ == self.word(),
    {
        match self {
            TaskStatus::Pending => "status:pending".to_owned(),
            TaskStatus::Completed => "status:completed".to_owned(),
            TaskStatus::Waiting => "status:waiting".to_owned(),
            TaskStatus::NotSet => "".to_owned(),
        }
    }
}

impl From<String> for TaskStatus {
    fn from(value: String) -> (r: TaskStatus) {
        let text = value.as_str();
        if same_text(text, "pending") || same_text(text, "status:pending") {
            TaskStatus::Pending
        } else if same_text(text, "completed") || same_text(text, "status:completed") {
            TaskStatus::Completed
        } else if same_text(text, "waiting") || same_text(text, "status:waiting") {
            TaskStatus::Waiting
        } else {
            TaskStatus::NotSet
        }
    }
}

impl FromSpecImpl<String> for TaskStatus {
    open spec fn obeys_from_spec() -> bool {
        true
    }

    open spec fn from_spec(value: String) -> TaskStatus {
        status_named(value@)
    }
}

/// The query of a task list.
#[derive(Debug, Clone)]
pub struct TaskQuery {
    status: TaskStatus,
    priority: TaskPriority,
    report: TaskReport,
    tags: Vec<String>,
    project: Option<String>,
    filter: Option<String>,
    new_entry: Option<String>,
    custom_query: Option<String>,
}

/// What a `TaskQuery` holds.
pub struct TaskQueryView {
    pub status: TaskStatus,
    pub priority: TaskPriority,
    pub report: TaskReport,
    pub tags: Seq<Seq<char>>,
    pub project: Option<Seq<char>>,
    pub filter: Option<Seq<char>>,
    pub new_entry: Option<Seq<char>>,
    pub custom_query: Option<Seq<char>>,
}

/// What the parameters of a request hold, as far as a query reads them.
pub struct ParamsView {
    pub filter: Option<Seq<char>>,
    pub query: Option<Seq<char>>,
    pub report: Option<Seq<char>>,
    pub status: Option<Seq<char>>,
    pub task_entry: Option<Seq<char>>,
    pub custom_query: Option<Seq<char>>,
}

/// The parameters of a request as a query reads them.
pub open spec fn params_view(params: TWGlobalState) -> ParamsView {
    ParamsView {
        filter: text_of(params.filter),
        query: text_of(params.query),
        report: text_of(params.report),
        status: text_of(params.status),
        task_entry: text_of(params.task_entry),
        custom_query: text_of(params.custom_query),
    }
}

/// A list of words without every occurrence of one word.
pub open spec fn without_word(words: Seq<Seq<char>>, word: Seq<char>) -> Seq<Seq<char>>
    decreases words.len(),
{
    if words.len() == 0 {
        Seq::empty()
    } else if words.last() == word {
        without_word(words.drop_last(), word)
    } else {
        without_word(words.drop_last(), word).push(words.last())
    }
}

/// The one word of an enum that is set, or no word.
pub open spec fn word_if(set: bool, word: Seq<char>) -> Seq<Seq<char>> {
    if set {
        seq![word]
    } else {
        Seq::empty()
    }
}

/// The one word of an option that is there, or no word.
pub open spec fn word_of(value: Option<Seq<char>>) -> Seq<Seq<char>> {
    match value {
        Some(word) => seq![word],
        None => Seq::empty(),
    }
}

impl TaskQueryView {
    /// The query that asks for the `next` report and nothing else.
    pub open spec fn initial() -> TaskQueryView {
        TaskQueryView {
            status: TaskStatus::NotSet,
            priority: TaskPriority::NotSet,
            report: TaskReport::Next,
            tags: Seq::empty(),
            project: None,
            filter: None,
            new_entry: None,
            custom_query: None,
        }
    }

    /// A custom query takes the place of the report where the request names
    /// neither a report nor a status; where it names one of them, the custom
    /// query and the filter go.
    pub open spec fn with_custom(self, p: ParamsView) -> TaskQueryView {
        if p.report is None && p.status is None {
            if p.custom_query matches Some(custom) && custom.len() > 0 {
                TaskQueryView {
                    report: TaskReport::NotSet,
                    custom_query: p.custom_query,
                    filter: p.filter,
                    ..self
                }
            } else {
                self
            }
        } else {
            TaskQueryView { custom_query: None, filter: None, ..self }
        }
    }

    /// A report takes the place of the status.
    pub open spec fn with_report(self, report: Option<Seq<char>>) -> TaskQueryView {
        match report {
            Some(name) => TaskQueryView {
                report: report_named(name),
                status: TaskStatus::NotSet,
                ..self
            },
            None => self,
        }
    }

    /// A status takes the place of the report; the status that is already
    /// set is taken away, and the `next` report comes back.
    pub open spec fn with_status(self, status: Option<Seq<char>>) -> TaskQueryView {
        match status {
            Some(name) => if status_named(name) == self.status {
                TaskQueryView { status: TaskStatus::NotSet, report: TaskReport::Next, ..self }
            } else {
                TaskQueryView {
                    status: status_named(name),
                    report: TaskReport::NotSet,
                    ..self
                }
            },
            None => self,
        }
    }

    /// A filter word toggles what it names: the project, a tag or the
    /// priority. Any other word is passed over.
    pub open spec fn with_word(self, word: Option<Seq<char>>) -> TaskQueryView {
        match word {
            Some(t) => if "project:"@.is_prefix_of(t) {
                TaskQueryView {
                    project: if self.project == Some(t) {
                        None
                    } else {
                        Some(t)
                    },
                    ..self
                }
            } else if t.len() > 0 && t[0] == '+' {
                TaskQueryView {
                    tags: if self.tags.contains(t) {
                        without_word(self.tags, t)
                    } else {
                        self.tags.push(t)
                    },
                    ..self
                }
            } else if "priority:"@.is_prefix_of(t) {
                TaskQueryView {
                    priority: if self.priority == priority_named(t) {
                        TaskPriority::NotSet
                    } else {
                        priority_named(t)
                    },
                    ..self
                }
            } else {
                self
            },
            None => self,
        }
    }

    /// The query after a request.
    pub open spec fn updated(self, p: ParamsView) -> TaskQueryView {
        TaskQueryView {
            new_entry: p.task_entry,
            ..self.with_custom(p).with_report(p.report).with_status(p.status).with_word(p.query)
        }
    }

    /// The words of the filter, as far as they can be read.
    pub open spec fn filter_words(self) -> Seq<Seq<char>> {
        match self.filter {
            Some(f) => match line_words(f) {
                Some(words) => words,
                None => Seq::empty(),
            },
            None => Seq::empty(),
        }
    }

    /// The words that select the tasks: the filter, the priority, the
    /// project, the tags, the status and the entry.
    pub open spec fn selection(self) -> Seq<Seq<char>> {
        self.filter_words() + word_if(self.priority != TaskPriority::NotSet, self.priority.word())
            + word_of(self.project) + self.tags + word_if(
            self.status != TaskStatus::NotSet,
            self.status.word(),
        ) + word_of(self.new_entry)
    }

    /// The words of the query: the selection, `export` where the tasks are
    /// to be exported, and last the report.
    pub open spec fn query(self, with_export: bool) -> Seq<Seq<char>> {
        self.selection() + word_if(with_export, "export"@) + word_if(
            self.report != TaskReport::NotSet,
            self.report.word(),
        )
    }
}

impl View for TaskQuery {
    type V = TaskQueryView;

    closed spec fn view(&self) -> TaskQueryView {
        TaskQueryView {
            status: self.status,
            priority: self.priority,
            report: self.report,
            tags: text_views(self.tags@),
            project: text_of(self.project),
            filter: text_of(self.filter),
            new_entry: text_of(self.new_entry),
            custom_query: text_of(self.custom_query),
        }
    }
}

impl Default for TaskQuery {
    fn default() -> (r: TaskQuery)
        ensures
            r@ == TaskQueryView::initial(),
    {
        let r = TaskQuery {
            status: TaskStatus::NotSet,
            priority: TaskPriority::NotSet,
            report: TaskReport::Next,
            tags: Vec::new(),
            project: None,
            filter: None,
            new_entry: None,
            custom_query: None,
        };
        assert(text_views(r.tags@) =~= Seq::<Seq<char>>::empty());
        r
    }
}

/// Adds a word where the condition holds.
fn push_word_if(out: &mut Vec<String>, set: bool, word: String)
    ensures
        text_views(final(out)@) == text_views(old(out)@) + word_if(set, word@),
{
    if set {
        push_text(out, word);
        assert(text_views(old(out)@).push(word@) =~= text_views(old(out)@) + seq![word@]);
    } else {
        assert(text_views(out@) + Seq::<Seq<char>>::empty() =~= text_views(out@));
    }
}

/// Adds the word of an option that is there.
fn push_word_of(out: &mut Vec<String>, word: &Option<String>)
    ensures
        text_views(final(out)@) == text_views(old(out)@) + word_of(text_of(*word)),
{
    match word {
        Some(w) => {
            push_text(out, w.clone());
            assert(text_views(old(out)@).push(w@) =~= text_views(old(out)@) + seq![w@]);
        },
        None => {
            assert(text_views(out@) + Seq::<Seq<char>>::empty() =~= text_views(out@));
        },
    }
}

/// The strings of a list that differ from the given text, in their order.
fn drop_text(words: &Vec<String>, word: &str) -> (r: Vec<String>)
    ensures
        text_views(r@) == without_word(text_views(words@), word@),
{
    let ghost all = text_views(words@);
    let mut kept: Vec<String> = Vec::new();
    assert(all.take(0) =~= Seq::<Seq<char>>::empty());
    assert(text_views(kept@) =~= Seq::<Seq<char>>::empty());
    let mut i: usize = 0;
    while i < words.len()
        invariant
            i <= words@.len(),
            all == text_views(words@),
            text_views(kept@) == without_word(all.take(i as int), word@),
        decreases words@.len() - i,
    {
        proof {
            let next = all.take(i as int + 1);
            assert(next.drop_last() =~= all.take(i as int));
            assert(next.last() == words@[i as int]@);
        }
        if !same_text(words[i].as_str(), word) {
            push_text(&mut kept, words[i].clone());
        }
        i = i + 1;
    }
    assert(all.take(i as int) =~= all);
    kept
}

impl TaskQuery {
    /// The query of the given parts.
    pub fn from_parts(
        status: TaskStatus,
        priority: TaskPriority,
        report: TaskReport,
        tags: Vec<String>,
        project: Option<String>,
        filter: Option<String>,
        new_entry: Option<String>,
        custom_query: Option<String>,
    ) -> (r: TaskQuery)
        ensures
            r@ == (TaskQueryView {
                status,
                priority,
                report,
                tags: text_views(tags@),
                project: text_of(project),
                filter: text_of(filter),
                new_entry: text_of(new_entry),
                custom_query: text_of(custom_query),
            }),
    {
        TaskQuery { status, priority, report, tags, project, filter, new_entry, custom_query }
    }

    /// The query that a first request comes to.
    pub fn new(params: TWGlobalState) -> (r: TaskQuery)
        ensures
            r@ == TaskQueryView::initial().updated(params_view(params)),
    {
        let mut tq = TaskQuery::default();
        tq.update(params);
        tq
    }

    /// The query for every task.
    pub fn all() -> (r: TaskQuery)
        ensures
            r@ == (TaskQueryView { report: TaskReport::All, ..TaskQueryView::initial() }),
    {
        let r = TaskQuery {
            status: TaskStatus::NotSet,
            priority: TaskPriority::NotSet,
            report: TaskReport::All,
            tags: Vec::new(),
            project: None,
            filter: None,
            new_entry: None,
            custom_query: None,
        };
        assert(text_views(r.tags@) =~= Seq::<Seq<char>>::empty());
        r
    }

    /// The query that asks for nothing, not even a report.
    pub fn empty() -> (r: TaskQuery)
        ensures
            r@ == (TaskQueryView { report: TaskReport::NotSet, ..TaskQueryView::initial() }),
    {
        let r = TaskQuery {
            status: TaskStatus::NotSet,
            priority: TaskPriority::NotSet,
            report: TaskReport::NotSet,
            tags: Vec::new(),
            project: None,
            filter: None,
            new_entry: None,
            custom_query: None,
        };
        assert(text_views(r.tags@) =~= Seq::<Seq<char>>::empty());
        r
    }

    /// Changes the query as a request asks.
    pub fn update(&mut self, params: TWGlobalState)
        ensures
            final(self)@ == old(self)@.updated(params_view(params)),
    {
        let ghost p = params_view(params);
        let ghost q0 = self@;
        if params.report.is_none() && params.status.is_none() {
            let custom = match &params.custom_query {
                Some(f) => !f.as_str().is_empty(),
                None => false,
            };
            if custom {
                self.report = TaskReport::NotSet;
                self.custom_query = params.custom_query;
                self.filter = params.filter;
            }
        } else {
            self.custom_query = None;
            self.filter = None;
        }
        assert(self@ == q0.with_custom(p));
        if let Some(rep) = params.report {
            self.report = TaskReport::from(rep);
            self.status = TaskStatus::NotSet;
        }
        assert(self@ == q0.with_custom(p).with_report(p.report));
        if let Some(status) = params.status {
            let s = TaskStatus::from(status);
            if s == self.status {
                self.status = TaskStatus::NotSet;
                self.report = TaskReport::Next;
            } else {
                self.status = s;
                self.report = TaskReport::NotSet;
            }
        }
        assert(self@ == q0.with_custom(p).with_report(p.report).with_status(p.status));
        if let Some(t) = params.query {
            let same_project = match &self.project {
                Some(project) => same_text(project.as_str(), t.as_str()),
                None => false,
            };
            if starts_with(t.as_str(), "project:") {
                if same_project {
                    self.project = None;
                } else {
                    self.project = Some(t);
                }
            } else if starts_with_char(t.as_str(), '+') {
                if holds_text(&self.tags, t.as_str()) {
                    self.tags = drop_text(&self.tags, t.as_str());
                } else {
                    push_text(&mut self.tags, t);
                }
            } else if starts_with(t.as_str(), "priority:") {
                let tp = TaskPriority::from(t);
                if self.priority == tp {
                    self.priority = TaskPriority::NotSet;
                } else {
                    self.priority = tp;
                }
            }
        }
        assert(self@ == q0.with_custom(p).with_report(p.report).with_status(p.status).with_word(
            p.query,
        ));
        self.new_entry = params.task_entry;
    }

    /// Sets the free filter words.
    pub fn set_filter(&mut self, filter: &str)
        ensures
            final(self)@ == (TaskQueryView { filter: Some(filter@), ..old(self)@ }),
    {
        self.filter = Some(filter.to_owned());
    }

    /// The words of the query. A filter whose quotes are not closed gives no
    /// word.
    pub fn get_query(&self, with_export: bool) -> (r: Vec<String>)
        ensures
            text_views(r@) == self@.query(with_export),
    {
        let mut output: Vec<String> = Vec::new();
        let ghost q = self@;
        assert(text_views(output@) =~= Seq::<Seq<char>>::empty());
        self.push_filter_words(&mut output);
        push_word_if(&mut output, self.priority != TaskPriority::NotSet, self.priority.to_string());
        push_word_of(&mut output, &self.project);
        extend_texts(&mut output, &self.tags);
        push_word_if(&mut output, self.status != TaskStatus::NotSet, self.status.to_string());
        push_word_of(&mut output, &self.new_entry);
        assert(text_views(output@) =~= q.selection());
        push_word_if(&mut output, with_export, "export".to_owned());
        push_word_if(&mut output, self.report != TaskReport::NotSet, self.report.to_string());
        output
    }

    /// Adds the words of the filter, as far as they can be read.
    fn push_filter_words(&self, out: &mut Vec<String>)
        ensures
            text_views(final(out)@) == text_views(old(out)@) + self@.filter_words(),
    {
        assert(text_views(out@) + Seq::<Seq<char>>::empty() =~= text_views(out@));
        if let Some(f) = &self.filter {
            if let Ok(task_filter) = split_words(f.as_str()) {
                extend_texts(out, &task_filter);
            }
        }
    }

    /// The words of the query as a filter, without the export.
    pub fn as_filter_text(&self) -> (r: Vec<String>)
        ensures
            text_views(r@) == self@.query(false),
    {
        self.get_query(false)
    }

    pub fn status(&self) -> (r: &TaskStatus)
        ensures
            *r == self@.status,
    {
        &self.status
    }

    pub fn priority(&self) -> (r: &TaskPriority)
        ensures
            *r == self@.priority,
    {
        &self.priority
    }

    pub fn report(&self) -> (r: &TaskReport)
        ensures
            *r == self@.report,
    {
        &self.report
    }

    pub fn tags(&self) -> (r: &Vec<String>)
        ensures
            text_views(r@) == self@.tags,
    {
        &self.tags
    }

    pub fn project(&self) -> (r: &Option<String>)
        ensures
            text_of(*r) == self@.project,
    {
        &self.project
    }

    pub fn filter(&self) -> (r: &Option<String>)
        ensures
            text_of(*r) == self@.filter,
    {
        &self.filter
    }

    pub fn new_entry(&self) -> (r: &Option<String>)
        ensures
            text_of(*r) == self@.new_entry,
    {
        &self.new_entry
    }

    pub fn custom_query(&self) -> (r: &Option<String>)
        ensures
            text_of(*r) == self@.custom_query,
    {
        &self.custom_query
    }
}

} // verus!
