//! The record types the service persists and accepts: a stored template row
//! and the input-only shape used to create one.

use vstd::prelude::*;

verus! {

/// Mathematical value of a stored template row.
#[verifier::ext_equal]
pub ghost struct TemplateView {
    pub id: int,
    pub name: Seq<char>,
    pub content: Seq<char>,
    pub created_at: Seq<char>,
}

/// A persisted template record. `id` and `created_at` are assigned by the
/// store; `name` and `content` come from the client.
#[derive(Debug)]
pub struct Template {
    pub id: i32,
    pub name: String,
    pub content: String,
    pub created_at: String,
}

impl View for Template {
    type V = TemplateView;

    open spec fn view(&self) -> TemplateView {
        TemplateView {
            id: self.id as int,
            name: self.name@,
            content: self.content@,
            created_at: self.created_at@,
        }
    }
}

impl Clone for Template {
    fn clone(&self) -> (r: Self)
        ensures
            r@ == self@,
    {
        Template {
            id: self.id,
            name: self.name.clone(),
            content: self.content.clone(),
            created_at: self.created_at.clone(),
        }
    }
}

/// Mathematical value of a creation payload.
#[verifier::ext_equal]
pub ghost struct NewTemplateView {
    pub name: Seq<char>,
    pub content: Seq<char>,
}

/// Input-only shape of a creation request: no id, no timestamp; the store
/// assigns both.
#[derive(Debug)]
pub struct NewTemplate {
    pub name: String,
    pub content: String,
}

impl View for NewTemplate {
    type V = NewTemplateView;

    open spec fn view(&self) -> NewTemplateView {
        NewTemplateView { name: self.name@, content: self.content@ }
    }
}

} // verus!
