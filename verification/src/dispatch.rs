//! Dispatches: what a client asks for, what a worker keeps while the job
//! waits, and what goes over the wire.

use crate::category::FactbookCategory;
use crate::error::Error;
use crate::form::{entry, pair_texts, put};
use crate::ratelimiter::Target;
use crate::text::{decimal, decimal_text};
use vstd::prelude::*;

verus! {

/// The phase of the two-phase exchange that a request belongs to.
#[derive(Clone, Copy, Debug, PartialEq, Eq, Structural)]
pub enum Mode {
    Prepare,
    Execute,
}

impl Mode {
    pub open spec fn text(self) -> Seq<char> {
        match self {
            Mode::Prepare => "prepare"@,
            Mode::Execute => "execute"@,
        }
    }

    /// The word that stands for the mode on the wire.
    pub fn serialize(&self) -> (word: String)
        ensures
            word@ == self.text(),
    {
        match self {
            Mode::Prepare => "prepare".to_owned(),
            Mode::Execute => "execute".to_owned(),
        }
    }
}

/// A client's request for a new dispatch.
#[derive(Clone, Debug, PartialEq, Eq)]
pub struct NewDispatch {
    pub nation: String,
    pub title: String,
    pub text: String,
    pub category: i16,
    pub subcategory: i16,
}

/// A client's request to change a dispatch.
#[derive(Clone, Debug, PartialEq, Eq)]
pub struct EditDispatch {
    pub title: String,
    pub text: String,
    pub category: i16,
    pub subcategory: i16,
}

#[derive(Clone, Debug, PartialEq, Eq)]
pub enum Action {
    Add { title: String, text: String, category: FactbookCategory },
    Edit { id: i32, title: String, text: String, category: FactbookCategory },
    Remove { id: i32 },
}

/// A dispatch job as its worker keeps it: the wire form's content, and with
/// it the job row and the author, which the remote host does not see.
#[derive(Clone, Debug, PartialEq, Eq)]
pub struct IntermediateDispatch {
    pub job_id: i32,
    pub author: String,
    pub nation: String,
    pub action: Action,
}

impl IntermediateDispatch {
    /// A job that adds a dispatch. Refused when the category pair is not
    /// one of the closed set.
    pub fn add(job_id: i32, author: String, params: NewDispatch) -> (r: Result<Self, Error>)
        ensures
            r is Ok <==> FactbookCategory::known((params.category, params.subcategory)),
            r matches Ok(job) ==> {
                &&& job.job_id == job_id
                &&& job.author == author
                &&& job.nation == params.nation
                &&& job.action matches Action::Add { title, text, category }
                &&& title == params.title
                &&& text == params.text
                &&& category.pair() == (params.category, params.subcategory)
            },
            r matches Err(e) ==> e == Error::InvalidFactbookCategory,
    {
        match FactbookCategory::try_from((params.category, params.subcategory)) {
            Ok(category) => Ok(
                IntermediateDispatch {
                    job_id,
                    author,
                    nation: params.nation,
                    action: Action::Add { title: params.title, text: params.text, category },
                },
            ),
            Err(e) => Err(e),
        }
    }

    /// A job that changes the dispatch `id` of `nation`. Refused when the
    /// category pair is not one of the closed set.
    pub fn edit(job_id: i32, author: String, id: i32, nation: String, params: EditDispatch) -> (r:
        Result<Self, Error>)
        ensures
            r is Ok <==> FactbookCategory::known((params.category, params.subcategory)),
            r matches Ok(job) ==> {
                &&& job.job_id == job_id
                &&& job.author == author
                &&& job.nation == nation
                &&& job.action matches Action::Edit { id: edited, title, text, category }
                &&& edited == id
                &&& title == params.title
                &&& text == params.text
                &&& category.pair() == (params.category, params.subcategory)
            },
            r matches Err(e) ==> e == Error::InvalidFactbookCategory,
    {
        match FactbookCategory::try_from((params.category, params.subcategory)) {
            Ok(category) => Ok(
                IntermediateDispatch {
                    job_id,
                    author,
                    nation,
                    action: Action::Edit { id, title: params.title, text: params.text, category },
                },
            ),
            Err(e) => Err(e),
        }
    }

    /// A job that removes the dispatch `id` of `nation`.
    pub fn delete(job_id: i32, author: String, id: i32, nation: String) -> (job: Self)
        ensures
            job == (IntermediateDispatch { job_id, author, nation, action: Action::Remove { id } }),
    {
        IntermediateDispatch { job_id, author, nation, action: Action::Remove { id } }
    }

    /// The budgets that the job's first request counts against: adding a
    /// dispatch is a restricted action of its nation, changing or removing
    /// one is a standard request.
    pub open spec fn budget(self) -> Target {
        match self.action {
            Action::Add { .. } => Target::Restricted { sender: self.nation },
            _ => Target::Standard,
        }
    }

    pub fn target(&self) -> (target: Target)
        ensures
            target.alike(self.budget()),
    {
        match &self.action {
            Action::Add { .. } => Target::restricted(self.nation.as_str()),
            _ => Target::Standard,
        }
    }

    /// The title that the job carries.
    pub open spec fn title(self) -> Option<Seq<char>> {
        match self.action {
            Action::Add { title, .. } => Some(title@),
            Action::Edit { title, .. } => Some(title@),
            Action::Remove { .. } => None,
        }
    }

    /// The text that the job carries, as the client wrote it.
    pub open spec fn text(self) -> Option<Seq<char>> {
        match self.action {
            Action::Add { text, .. } => Some(text@),
            Action::Edit { text, .. } => Some(text@),
            Action::Remove { .. } => None,
        }
    }

    /// The category that the job carries.
    pub open spec fn category(self) -> Option<FactbookCategory> {
        match self.action {
            Action::Add { category, .. } => Some(category),
            Action::Edit { category, .. } => Some(category),
            Action::Remove { .. } => None,
        }
    }

    /// The word for what the job does.
    pub open spec fn verb(self) -> Seq<char> {
        match self.action {
            Action::Add { .. } => "add"@,
            Action::Edit { .. } => "edit"@,
            Action::Remove { .. } => "remove"@,
        }
    }

    /// The dispatch that the job is about, where it exists before the job
    /// has run.
    pub open spec fn known_id(self) -> Option<i32> {
        match self.action {
            Action::Add { .. } => None,
            Action::Edit { id, .. } => Some(id),
            Action::Remove { id } => Some(id),
        }
    }

    pub fn dispatch_id(&self) -> (id: Option<i32>)
        ensures
            id == self.known_id(),
    {
        match &self.action {
            Action::Add { .. } => None,
            Action::Edit { id, .. } => Some(*id),
            Action::Remove { id } => Some(*id),
        }
    }
}

/// A dispatch request as the remote host reads it.
#[derive(Clone, Debug, PartialEq, Eq)]
pub struct Dispatch {
    pub id: Option<i32>,
    pub nation: String,
    pub command: String,
    pub action: String,
    pub title: Option<String>,
    pub text: Option<String>,
    pub category: Option<i16>,
    pub subcategory: Option<i16>,
    pub mode: Mode,
    pub token: Option<String>,
}

/// The text that an optional text holds.
pub open spec fn text_of(value: Option<String>) -> Option<Seq<char>> {
    match value {
        Some(text) => Some(text@),
        None => None,
    }
}

/// An optional number written in decimal.
pub open spec fn number_of(value: Option<int>) -> Option<Seq<char>> {
    match value {
        Some(n) => Some(decimal(n)),
        None => None,
    }
}

impl Dispatch {
    /// A request of the prepare phase.
    pub fn new(
        id: Option<i32>,
        nation: String,
        action: String,
        title: Option<String>,
        text: Option<String>,
        category: Option<i16>,
        subcategory: Option<i16>,
    ) -> (dispatch: Self)
        ensures
            dispatch.id == id,
            dispatch.nation == nation,
            dispatch.command@ == "dispatch"@,
            dispatch.action == action,
            dispatch.title == title,
            dispatch.text == text,
            dispatch.category == category,
            dispatch.subcategory == subcategory,
            dispatch.mode == Mode::Prepare,
            dispatch.token is None,
    {
        Dispatch {
            id,
            nation,
            command: "dispatch".to_owned(),
            action,
            title,
            text,
            category,
            subcategory,
            mode: Mode::Prepare,
            token: None,
        }
    }

    pub fn set_mode(&mut self, mode: Mode)
        ensures
            *final(self) == (Dispatch { mode, ..*old(self) }),
    {
        self.mode = mode;
    }

    pub fn set_token(&mut self, token: String)
        ensures
            *final(self) == (Dispatch { token: Some(token), ..*old(self) }),
    {
        self.token = Some(token);
    }

    /// Whether the request is in one of its two phases: preparing without a
    /// token, or executing with the token it was given; and carries an
    /// identifier exactly when it is not an `add`.
    pub open spec fn wf(self) -> bool {
        &&& self.command@ == "dispatch"@
        &&& self.action@ == "add"@ || self.action@ == "edit"@ || self.action@ == "remove"@
        &&& self.id is None <==> self.action@ == "add"@
        &&& self.mode == Mode::Prepare <==> self.token is None
    }

    /// Whether this is the prepare request of `job` with `text` in the
    /// place of the job's text: an `add` carries no identifier, `edit` and
    /// `remove` carry the dispatch's; `remove` carries nothing else.
    pub open spec fn requests(self, job: IntermediateDispatch, text: Option<Seq<char>>) -> bool {
        &&& self.id == job.known_id()
        &&& self.nation@ == job.nation@
        &&& self.command@ == "dispatch"@
        &&& self.action@ == job.verb()
        &&& text_of(self.title) == job.title()
        &&& text_of(self.text) == text
        &&& self.category == match job.category() {
            Some(category) => Some(category.pair().0),
            None => None,
        }
        &&& self.subcategory == match job.category() {
            Some(category) => Some(category.pair().1),
            None => None,
        }
        &&& self.mode == Mode::Prepare
        &&& self.token is None
    }

    /// The prepare request of a job.
    pub fn from(command: IntermediateDispatch) -> (dispatch: Dispatch)
        ensures
            dispatch.requests(command, command.text()),
            dispatch.wf(),
    {
        proof {
            lemma_verbs_differ();
        }
        match command.action {
            Action::Add { title, text, category } => {
                let (category, subcategory) = category.to_tuple();
                Dispatch::new(
                    None,
                    command.nation,
                    "add".to_owned(),
                    Some(title),
                    Some(text),
                    Some(category),
                    Some(subcategory),
                )
            },
            Action::Edit { id, title, text, category } => {
                let (category, subcategory) = category.to_tuple();
                Dispatch::new(
                    Some(id),
                    command.nation,
                    "edit".to_owned(),
                    Some(title),
                    Some(text),
                    Some(category),
                    Some(subcategory),
                )
            },
            Action::Remove { id } => Dispatch::new(
                Some(id),
                command.nation,
                "remove".to_owned(),
                None,
                None,
                None,
                None,
            ),
        }
    }

    /// The named values of the request in the order in which they are
    /// written; a value that is absent is left out with its name.
    pub open spec fn form(self) -> Seq<(Seq<char>, Seq<char>)> {
        entry(
            "dispatchid"@,
            number_of(
                match self.id {
                    Some(id) => Some(id as int),
                    None => None,
                },
            ),
        ) + seq![("nation"@, self.nation@), ("c"@, self.command@), ("dispatch"@, self.action@)]
            + entry("title"@, text_of(self.title)) + entry("text"@, text_of(self.text)) + entry(
            "category"@,
            number_of(
                match self.category {
                    Some(n) => Some(n as int),
                    None => None,
                },
            ),
        ) + entry(
            "subcategory"@,
            number_of(
                match self.subcategory {
                    Some(n) => Some(n as int),
                    None => None,
                },
            ),
        ) + seq![("mode"@, self.mode.text())] + entry("token"@, text_of(self.token))
    }

    pub fn fields(&self) -> (form: Vec<(String, String)>)
        ensures
            pair_texts(form@) == self.form(),
    {
        let mut form: Vec<(String, String)> = Vec::new();
        assert(pair_texts(form@) =~= Seq::empty());
        if let Some(id) = self.id {
            put(&mut form, "dispatchid", decimal_text(id as i64));
        }
        let ghost a = entry(
            "dispatchid"@,
            number_of(
                match self.id {
                    Some(id) => Some(id as int),
                    None => None,
                },
            ),
        );
        assert(pair_texts(form@) =~= a);
        put(&mut form, "nation", self.nation.clone());
        put(&mut form, "c", self.command.clone());
        put(&mut form, "dispatch", self.action.clone());
        let ghost b = a + seq![
            ("nation"@, self.nation@),
            ("c"@, self.command@),
            ("dispatch"@, self.action@),
        ];
        assert(pair_texts(form@) =~= b);
        if let Some(title) = &self.title {
            put(&mut form, "title", title.clone());
        }
        let ghost c = b + entry("title"@, text_of(self.title));
        assert(pair_texts(form@) =~= c);
        if let Some(text) = &self.text {
            put(&mut form, "text", text.clone());
        }
        let ghost d = c + entry("text"@, text_of(self.text));
        assert(pair_texts(form@) =~= d);
        if let Some(category) = self.category {
            put(&mut form, "category", decimal_text(category as i64));
        }
        let ghost e = d + entry(
            "category"@,
            number_of(
                match self.category {
                    Some(n) => Some(n as int),
                    None => None,
                },
            ),
        );
        assert(pair_texts(form@) =~= e);
        if let Some(subcategory) = self.subcategory {
            put(&mut form, "subcategory", decimal_text(subcategory as i64));
        }
        let ghost f = e + entry(
            "subcategory"@,
            number_of(
                match self.subcategory {
                    Some(n) => Some(n as int),
                    None => None,
                },
            ),
        );
        assert(pair_texts(form@) =~= f);
        put(&mut form, "mode", self.mode.serialize());
        if let Some(token) = &self.token {
            put(&mut form, "token", token.clone());
        }
        assert(pair_texts(form@) =~= f + seq![("mode"@, self.mode.text())] + entry(
            "token"@,
            text_of(self.token),
        ));
        form
    }
}


/// The three words for what a dispatch job does are three different words.
pub proof fn lemma_verbs_differ()
    ensures
        "add"@ != "edit"@,
        "add"@ != "remove"@,
        "edit"@ != "remove"@,
{
    reveal_strlit("add");
    reveal_strlit("edit");
    reveal_strlit("remove");
    assert("add"@.len() == 3 && "edit"@.len() == 4 && "remove"@.len() == 6);
}

} // verus!
