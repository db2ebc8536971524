//! Increments of a response stream, with what annotates them.

use vstd::prelude::*;
use vstd::string::*;

use crate::error::{DynamoError, PagodaError};
use crate::protocols::maybe_error::MaybeError;
use crate::text::{join_all, joined, same_text, views};

verus! {

/// The event name of an increment that stands for an error.
pub const ERROR_EVENT: &'static str = "error";

/// Whether one of `list` is `annotation`.
pub open spec fn is_among(list: Seq<String>, annotation: Seq<char>) -> bool {
    exists|i: int| 0 <= i < list.len() && (#[trigger] list[i])@ == annotation
}

/// Whether one of the texts is `annotation`.
pub fn contains_text(list: &Vec<String>, annotation: &str) -> (found: bool)
    ensures
        found == is_among(list@, annotation@),
{
    let mut i: usize = 0;
    while i < list.len()
        invariant
            i <= list@.len(),
            forall|j: int| 0 <= j < i ==> (#[trigger] list@[j])@ != annotation@,
        decreases list@.len() - i,
    {
        if same_text(list[i].as_str(), annotation) {
            assert(list@[i as int]@ == annotation@);
            return true;
        }
        i = i + 1;
    }
    false
}

/// Something that carries annotations.
pub trait AnnotationsProvider {
    /// The annotations, if there are any.
    open spec fn spec_annotations(&self) -> Option<Seq<Seq<char>>> {
        arbitrary()
    }

    /// The annotations, if there are any.
    fn annotations(&self) -> (list: Option<Vec<String>>)
        ensures
            match list {
                Some(list) => self.spec_annotations() == Some(views(list@)),
                None => self.spec_annotations() is None,
            },
    ;

    /// Whether `annotation` is among the annotations.
    fn has_annotation(&self, annotation: &str) -> (found: bool)
        ensures
            found == match self.spec_annotations() {
                Some(list) => list.contains(annotation@),
                None => false,
            },
    {
        match self.annotations() {
            Some(list) => {
                let found = contains_text(&list, annotation);
                proof {
                    let all = views(list@);
                    if found {
                        let i = choose|i: int|
                            0 <= i < list@.len() && (#[trigger] list@[i])@ == annotation@;
                        assert(all[i] == annotation@);
                    }
                    if all.contains(annotation@) {
                        let i = choose|i: int| 0 <= i < all.len() && all[i] == annotation@;
                        assert(list@[i]@ == annotation@);
                    }
                }
                found
            },
            None => false,
        }
    }
}

/// An increment of a response stream.
#[derive(Debug, Clone)]
pub struct Annotated<R> {
    /// The data; an increment without any tells of an event.
    pub data: Option<R>,
    /// Ties increments of one event together.
    pub id: Option<String>,
    /// The name of the event; that of an error is [`ERROR_EVENT`].
    pub event: Option<String>,
    /// Remarks; those of an error without further description tell what went wrong.
    pub comment: Option<Vec<String>>,
    /// What went wrong.
    pub error: Option<DynamoError>,
}

impl<R> Annotated<R> {
    /// Whether the increment stands for an error.
    pub open spec fn spec_is_error(&self) -> bool {
        self.event is Some && self.event->Some_0@ == ERROR_EVENT@
    }

    /// What an increment that stands for an error says: the error if there is one, else the
    /// remarks with `sep` in between if there are any.
    pub open spec fn spec_error_message(&self, sep: Seq<char>) -> Seq<char> {
        match self.error {
            Some(error) => "Unknown: "@ + error@,
            None => match self.comment {
                Some(list) => if list@.len() > 0 {
                    joined(views(list@), sep)
                } else {
                    "unknown error"@
                },
                None => "unknown error"@,
            },
        }
    }

    /// Whether nothing but the data tells two increments apart.
    pub open spec fn same_annotations<U>(&self, other: &Annotated<U>) -> bool {
        &&& self.id == other.id
        &&& self.event == other.event
        &&& self.comment == other.comment
        &&& self.error == other.error
    }

    /// An increment that stands for an error.
    pub fn from_error(error: String) -> (annotated: Self)
        ensures
            annotated.data is None,
            annotated.id is None,
            annotated.spec_is_error(),
            annotated.comment is None,
            annotated.error is Some,
            annotated.error->Some_0@ == error@,
    {
        Annotated {
            data: None,
            id: None,
            event: Some(ERROR_EVENT.to_owned()),
            comment: None,
            error: Some(PagodaError::msg(error)),
        }
    }

    /// An increment with data and nothing else.
    pub fn from_data(data: R) -> (annotated: Self)
        ensures
            annotated == (Annotated {
                data: Some(data),
                id: None,
                event: None,
                comment: None,
                error: None,
            }),
    {
        Annotated { data: Some(data), id: None, event: None, comment: None, error: None }
    }

    /// An increment that tells of the event `name`, with a serialised value as its remark. Where
    /// the value could not be serialised, that is the outcome.
    pub fn from_annotation<E>(name: &str, payload: Result<String, E>) -> (annotated: Result<
        Self,
        E,
    >)
        ensures
            match payload {
                Err(error) => annotated == Err::<Self, E>(error),
                Ok(text) => {
                    &&& annotated is Ok
                    &&& annotated->Ok_0.data is None
                    &&& annotated->Ok_0.id is None
                    &&& annotated->Ok_0.event is Some
                    &&& annotated->Ok_0.event->Some_0@ == name@
                    &&& annotated->Ok_0.comment is Some
                    &&& annotated->Ok_0.comment->Some_0@ == seq![text]
                    &&& annotated->Ok_0.error is None
                },
            },
    {
        match payload {
            Err(error) => Err(error),
            Ok(text) => {
                let mut comment: Vec<String> = Vec::new();
                comment.push(text);
                assert(comment@ =~= seq![text]);
                Ok(
                    Annotated {
                        data: None,
                        id: None,
                        event: Some(name.to_owned()),
                        comment: Some(comment),
                        error: None,
                    },
                )
            },
        }
    }

    fn is_error_event(&self) -> (is_error: bool)
        ensures
            is_error == self.spec_is_error(),
    {
        match &self.event {
            Some(name) => same_text(name.as_str(), ERROR_EVENT),
            None => false,
        }
    }

    fn error_message(&self, sep: &str) -> (message: String)
        ensures
            message@ == self.spec_error_message(sep@),
    {
        match &self.error {
            Some(error) => error.to_string(),
            None => match &self.comment {
                Some(list) => if list.len() > 0 {
                    join_all(list, sep)
                } else {
                    "unknown error".to_owned()
                },
                None => "unknown error".to_owned(),
            },
        }
    }

    /// Whether the increment stands for an error.
    pub fn is_error(&self) -> (is_error: bool)
        ensures
            is_error == self.spec_is_error(),
    {
        self.is_error_event()
    }

    /// Whether the increment does not stand for an error.
    pub fn is_ok(&self) -> (is_ok: bool)
        ensures
            is_ok == !self.spec_is_error(),
    {
        !self.is_error_event()
    }

    /// Whether the increment stands for an error.
    pub fn is_err(&self) -> (is_err: bool)
        ensures
            is_err == self.spec_is_error(),
    {
        self.is_error_event()
    }

    /// Whether the increment tells of an event, be it an error or not.
    pub fn is_event(&self) -> (is_event: bool)
        ensures
            is_event == (self.event is Some),
    {
        self.event.is_some()
    }

    /// The same annotations on other data.
    pub fn transfer<U>(self, data: Option<U>) -> (annotated: Annotated<U>)
        ensures
            annotated.data == data,
            self.same_annotations(&annotated),
    {
        Annotated {
            data,
            id: self.id,
            event: self.event,
            comment: self.comment,
            error: self.error,
        }
    }

    /// The increment with its data transformed. Annotations stay as they are, unless the
    /// transformation fails: then the whole increment becomes an error.
    pub fn map_data<U, F: FnOnce(R) -> Result<U, String>>(self, transform: F) -> (annotated:
        Annotated<U>)
        requires
            self.data is Some ==> call_requires(transform, (self.data->Some_0,)),
        ensures
            self.data is None ==> annotated.data is None && self.same_annotations(&annotated),
            self.data is Some ==> exists|mapped: Result<U, String>|
                {
                    &&& #[trigger] call_ensures(transform, (self.data->Some_0,), mapped)
                    &&& match mapped {
                        Ok(value) => annotated.data == Some(value) && self.same_annotations(
                            &annotated,
                        ),
                        Err(text) => {
                            &&& annotated.data is None
                            &&& annotated.id is None
                            &&& annotated.spec_is_error()
                            &&& annotated.comment is None
                            &&& annotated.error is Some
                            &&& annotated.error->Some_0@ == text@
                        },
                    }
                },
    {
        let Annotated { data, id, event, comment, error } = self;
        let value = match data {
            Some(value) => value,
            None => {
                return Annotated { data: None, id, event, comment, error };
            },
        };
        let mapped = transform(value);
        let ghost seen = mapped;
        assert(call_ensures(transform, (self.data->Some_0,), seen));
        match mapped {
            Ok(value) => Annotated { data: Some(value), id, event, comment, error },
            Err(text) => Annotated::from_error(text),
        }
    }

    /// The increment, or the message of the error that it stands for.
    pub fn ok(self) -> (outcome: Result<Self, String>)
        ensures
            if self.spec_is_error() {
                outcome is Err && outcome->Err_0@ == self.spec_error_message(", "@)
            } else {
                outcome == Ok::<Self, String>(self)
            },
    {
        if self.is_error_event() {
            return Err(self.error_message(", "));
        }
        Ok(self)
    }

    /// The data if there is any; else the message of the error that the increment stands for; else
    /// nothing.
    pub fn into_result(self) -> (outcome: Result<Option<R>, String>)
        ensures
            if self.data is Some {
                outcome == Ok::<Option<R>, String>(self.data)
            } else if self.spec_is_error() {
                outcome is Err && outcome->Err_0@ == self.spec_error_message(", "@)
            } else {
                outcome == Ok::<Option<R>, String>(None)
            },
    {
        if self.data.is_some() {
            return Ok(self.data);
        }
        if self.is_error_event() {
            return Err(self.error_message(", "));
        }
        Ok(None)
    }
}

impl<R> MaybeError for Annotated<R> {
    open spec fn spec_err(&self) -> Option<Seq<char>> {
        if !self.spec_is_error() {
            None
        } else {
            match self.error {
                Some(error) => Some(error@),
                None => Some(self.spec_error_message("; "@)),
            }
        }
    }

    fn from_err(err: PagodaError) -> (value: Self)
        ensures
            value.data is None,
            value.id is None,
            value.spec_is_error(),
            value.comment is None,
            value.error == Some(err),
    {
        Annotated {
            data: None,
            id: None,
            event: Some(ERROR_EVENT.to_owned()),
            comment: None,
            error: Some(err),
        }
    }

    fn err(&self) -> (err: Option<PagodaError>) {
        if !self.is_error_event() {
            return None;
        }
        match &self.error {
            Some(error) => Some(error.clone()),
            None => Some(PagodaError::msg(self.error_message("; "))),
        }
    }
}

/// An increment stands for an error exactly where it yields one, and exactly where it is not
/// handed back as a success.
pub proof fn law_error_views_agree<R>(a: Annotated<R>)
    ensures
        a.spec_is_error() == (a.spec_err() is Some),
{
}

/// Moving the annotations to other data keeps the error: it is still there, in the same words.
pub proof fn law_transfer_keeps_the_error<R, U>(a: Annotated<R>, b: Annotated<U>)
    requires
        a.same_annotations(&b),
    ensures
        b.spec_is_error() == a.spec_is_error(),
        b.spec_err() == a.spec_err(),
        forall|sep: Seq<char>| b.spec_error_message(sep) == a.spec_error_message(sep),
{
}

/// An increment with data is a success that yields its data; one that was made of an error is an
/// error that tells its message.
pub proof fn law_data_and_errors_come_back<R>(
    data: R,
    with_data: Annotated<R>,
    result: Result<Option<R>, String>,
    kept: Result<Annotated<R>, String>,
    data_is_error: bool,
    data_is_ok: bool,
    data_is_event: bool,
    message: String,
    with_error: Annotated<R>,
    error_result: Result<Option<R>, String>,
    error_kept: Result<Annotated<R>, String>,
    error_is_error: bool,
    error_is_err: bool,
    error_is_ok: bool,
    error_is_event: bool,
)
    requires
        call_ensures(Annotated::<R>::from_data, (data,), with_data),
        call_ensures(Annotated::<R>::into_result, (with_data,), result),
        call_ensures(Annotated::<R>::ok, (with_data,), kept),
        call_ensures(Annotated::<R>::is_error, (&with_data,), data_is_error),
        call_ensures(Annotated::<R>::is_ok, (&with_data,), data_is_ok),
        call_ensures(Annotated::<R>::is_event, (&with_data,), data_is_event),
        call_ensures(Annotated::<R>::from_error, (message,), with_error),
        call_ensures(Annotated::<R>::into_result, (with_error,), error_result),
        call_ensures(Annotated::<R>::ok, (with_error,), error_kept),
        call_ensures(Annotated::<R>::is_error, (&with_error,), error_is_error),
        call_ensures(Annotated::<R>::is_err, (&with_error,), error_is_err),
        call_ensures(Annotated::<R>::is_ok, (&with_error,), error_is_ok),
        call_ensures(Annotated::<R>::is_event, (&with_error,), error_is_event),
    ensures
        result == Ok::<Option<R>, String>(Some(data)),
        kept == Ok::<Annotated<R>, String>(with_data),
        !data_is_error && data_is_ok && !data_is_event,
        error_result is Err && error_result->Err_0@ == "Unknown: "@ + message@,
        error_kept is Err && error_kept->Err_0@ == "Unknown: "@ + message@,
        error_is_error && error_is_err && !error_is_ok && error_is_event,
        with_error.spec_err() == Some(message@),
        with_data.spec_err() is None,
{
}

/// An increment stands for an error exactly if its event is named `error`; it is then the error it
/// holds that is told, else its remarks, joined, else that nothing is known of it.
pub proof fn law_what_an_error_tells<R>(
    increment: Annotated<R>,
    is_error: bool,
    kept: Result<Annotated<R>, String>,
    result: Result<Option<R>, String>,
)
    requires
        call_ensures(Annotated::<R>::is_error, (&increment,), is_error),
        call_ensures(Annotated::<R>::ok, (increment,), kept),
        call_ensures(Annotated::<R>::into_result, (increment,), result),
    ensures
        is_error <==> increment.event is Some && increment.event->Some_0@ == "error"@,
        kept is Err == is_error,
        kept is Ok ==> kept->Ok_0 == increment,
        result is Err == (is_error && increment.data is None),
        result is Err ==> result->Err_0@ == kept->Err_0@,
        result is Ok ==> result->Ok_0 == increment.data,
        is_error && increment.error is Some ==> kept->Err_0@ == "Unknown: "@
            + increment.error->Some_0@ && increment.spec_err() == Some(increment.error->Some_0@),
        is_error && increment.error is None && (increment.comment is None
            || increment.comment->Some_0@.len() == 0) ==> kept->Err_0@ == "unknown error"@
            && increment.spec_err() == Some("unknown error"@),
        is_error && increment.error is None && increment.comment is Some
            && increment.comment->Some_0@.len() == 1 ==> kept->Err_0@
            == increment.comment->Some_0@[0]@ && increment.spec_err() == Some(
            increment.comment->Some_0@[0]@,
        ),
        is_error && increment.error is None && increment.comment is Some
            && increment.comment->Some_0@.len() == 2 ==> kept->Err_0@
            == increment.comment->Some_0@[0]@ + ", "@ + increment.comment->Some_0@[1]@
            && increment.spec_err() == Some(
            increment.comment->Some_0@[0]@ + "; "@ + increment.comment->Some_0@[1]@,
        ),
        is_error && increment.error is None && increment.comment is Some
            && increment.comment->Some_0@.len() > 0 ==> kept->Err_0@ == joined(
            views(increment.comment->Some_0@),
            ", "@,
        ),
        !is_error ==> increment.spec_err() is None,
{
    if increment.comment is Some && increment.comment->Some_0@.len() == 2 {
        let parts = views(increment.comment->Some_0@);
        assert(parts.drop_last() =~= seq![parts[0]]);
        assert(joined(seq![parts[0]], ", "@) == parts[0]);
        assert(joined(seq![parts[0]], "; "@) == parts[0]);
        assert(joined(parts, ", "@) == joined(parts.drop_last(), ", "@) + ", "@ + parts.last());
        assert(joined(parts, "; "@) == joined(parts.drop_last(), "; "@) + "; "@ + parts.last());
    }
}

/// An annotation is an event of its name with the serialised value as its only remark, and no error
/// unless it is named like one.
pub proof fn law_annotation_is_an_event<R, E>(
    name: &str,
    text: String,
    made: Result<Annotated<R>, E>,
    failure: E,
    failed: Result<Annotated<R>, E>,
    is_event: bool,
    is_error: bool,
)
    requires
        call_ensures(Annotated::<R>::from_annotation::<E>, (name, Ok::<String, E>(text)), made),
        call_ensures(
            Annotated::<R>::from_annotation::<E>,
            (name, Err::<String, E>(failure)),
            failed,
        ),
        made is Ok ==> call_ensures(Annotated::<R>::is_event, (&made->Ok_0,), is_event),
        made is Ok ==> call_ensures(Annotated::<R>::is_error, (&made->Ok_0,), is_error),
    ensures
        made is Ok,
        failed == Err::<Annotated<R>, E>(failure),
        is_event,
        is_error == (name@ == "error"@),
        made->Ok_0.data is None,
        made->Ok_0.comment is Some,
        made->Ok_0.comment->Some_0@.len() == 1,
        made->Ok_0.comment->Some_0@[0] == text,
{
}

/// Moving annotations to other data and back changes nothing.
pub proof fn law_transfer_there_and_back<R, U>(
    increment: Annotated<R>,
    data: Option<U>,
    moved: Annotated<U>,
    back: Annotated<R>,
)
    requires
        call_ensures(Annotated::<R>::transfer::<U>, (increment, data), moved),
        call_ensures(Annotated::<U>::transfer::<R>, (moved, increment.data), back),
    ensures
        moved.data == data,
        back == increment,
{
}

/// Transforming the data leaves the annotations, and does nothing where there are no data; where the
/// transformation fails, the increment is an error with that reason.
pub proof fn law_transformed_data<R, U, F: FnOnce(R) -> Result<U, String>>(
    increment: Annotated<R>,
    transform: F,
    value: U,
    reason: String,
    mapped: Annotated<U>,
    result: Result<Option<U>, String>,
)
    requires
        call_ensures(Annotated::<R>::map_data::<U, F>, (increment, transform), mapped),
        call_ensures(Annotated::<U>::into_result, (mapped,), result),
    ensures
        increment.data is Some && (forall|outcome: Result<U, String>| #[trigger]
            call_ensures(transform, (increment.data->Some_0,), outcome) ==> outcome == Ok::<
                U,
                String,
            >(value)) ==> mapped.data == Some(value) && mapped.event == increment.event && mapped.id
            == increment.id && mapped.comment == increment.comment && mapped.error
            == increment.error,
        increment.data is Some && (forall|outcome: Result<U, String>| #[trigger]
            call_ensures(transform, (increment.data->Some_0,), outcome) ==> outcome == Err::<
                U,
                String,
            >(reason)) ==> result is Err && result->Err_0@ == "Unknown: "@ + reason@,
        increment.data is None ==> mapped.data is None && mapped.event == increment.event
            && mapped.id == increment.id && mapped.comment == increment.comment && mapped.error
            == increment.error,
{
}

/// A text is among a list exactly if the list holds it at some place.
pub proof fn law_listed_text_is_found(list: &Vec<String>, text: &str, found: bool)
    requires
        call_ensures(contains_text, (list, text), found),
    ensures
        found == views(list@).contains(text@),
{
    if found {
        let i = choose|i: int| 0 <= i < list@.len() && (#[trigger] list@[i])@ == text@;
        assert(views(list@)[i] == text@);
    }
    if views(list@).contains(text@) {
        let i = choose|i: int| 0 <= i < views(list@).len() && views(list@)[i] == text@;
        assert(list@[i]@ == text@);
    }
}

} // verus!
