//! The values that scene fields hold.

use crate::ieee::{Double, Single};
use crate::text::texts;
use vstd::prelude::*;

verus! {

/// A list edit: either the explicit list, or the items that it adds to the
/// list of a weaker layer.
#[derive(Debug, Clone)]
pub struct ListOp {
    pub explicit: bool,
    pub explicit_items: Vec<String>,
    pub prepended_items: Vec<String>,
    pub appended_items: Vec<String>,
    pub added_items: Vec<String>,
}

/// A [`ListOp`] with its items as character sequences.
#[verifier::ext_equal]
pub ghost struct ListOpView {
    pub explicit: bool,
    pub explicit_items: Seq<Seq<char>>,
    pub prepended_items: Seq<Seq<char>>,
    pub appended_items: Seq<Seq<char>>,
    pub added_items: Seq<Seq<char>>,
}

impl ListOpView {
    /// The edit that replaces whatever was listed.
    pub open spec fn replace(items: Seq<Seq<char>>) -> ListOpView {
        ListOpView {
            explicit: true,
            explicit_items: items,
            prepended_items: seq![],
            appended_items: seq![],
            added_items: seq![],
        }
    }

    /// The edit that puts items in front.
    pub open spec fn prepend(items: Seq<Seq<char>>) -> ListOpView {
        ListOpView {
            explicit: false,
            explicit_items: seq![],
            prepended_items: items,
            appended_items: seq![],
            added_items: seq![],
        }
    }

    /// The list that the edit leaves when nothing weaker is listed: the
    /// explicit items, or the prepended, the appended and the added ones. An
    /// item that is appended is listed with the appended ones alone, and one
    /// that is prepended and added, but not appended, is not listed.
    pub open spec fn flattened(self) -> Seq<Seq<char>> {
        if self.explicit {
            self.explicit_items
        } else {
            self.prepended_items.filter(
                |e: Seq<char>| !self.appended_items.contains(e) && !self.added_items.contains(e),
            ) + self.appended_items + self.added_items.filter(
                |e: Seq<char>|
                    !self.prepended_items.contains(e) && !self.appended_items.contains(e),
            )
        }
    }
}

impl View for ListOp {
    type V = ListOpView;

    open spec fn view(&self) -> ListOpView {
        ListOpView {
            explicit: self.explicit,
            explicit_items: texts(self.explicit_items@),
            prepended_items: texts(self.prepended_items@),
            appended_items: texts(self.appended_items@),
            added_items: texts(self.added_items@),
        }
    }
}

impl ListOp {
    /// The edit that replaces whatever was listed.
    pub fn replace(items: Vec<String>) -> (r: ListOp)
        ensures
            r@ == ListOpView::replace(texts(items@)),
    {
        let r: ListOp = ListOp {
            explicit: true,
            explicit_items: items,
            prepended_items: Vec::new(),
            appended_items: Vec::new(),
            added_items: Vec::new(),
        };
        assert(r@ =~= ListOpView::replace(texts(items@)));
        r
    }

    /// The edit that puts items in front.
    pub fn prepend(items: Vec<String>) -> (r: ListOp)
        ensures
            r@ == ListOpView::prepend(texts(items@)),
    {
        let r: ListOp = ListOp {
            explicit: false,
            explicit_items: Vec::new(),
            prepended_items: items,
            appended_items: Vec::new(),
            added_items: Vec::new(),
        };
        assert(r@ =~= ListOpView::prepend(texts(items@)));
        r
    }

    /// Calls `openusd::sdf::ListOp::flatten` on the same items. It returns the
    /// explicit items of an explicit edit; of any other, the prepended items
    /// that are neither appended nor added, then the appended ones, then the
    /// added ones that are neither prepended nor appended, each in its order.
    #[verifier::external_body]
    pub(crate) fn flatten(&self) -> (r: Vec<String>)
        ensures
            texts(r@) == self@.flattened(),
    {
        openusd::sdf::ListOp {
            explicit: self.explicit,
            explicit_items: self.explicit_items.clone(),
            prepended_items: self.prepended_items.clone(),
            appended_items: self.appended_items.clone(),
            added_items: self.added_items.clone(),
            ..Default::default()
        }.flatten()
    }
}

/// A value of a scene field. The kinds that no reader looks at are all
/// [`Value::Other`].
#[derive(Debug, Clone)]
pub enum Value {
    Bool(bool),
    Int(i32),
    Int64(i64),
    Float(Single),
    Double(Double),
    Token(String),
    String(String),
    Vec3f([Single; 3]),
    Vec3d([Double; 3]),
    /// A quaternion, its real part first.
    Quatf([Single; 4]),
    /// A quaternion, its real part first.
    Quatd([Double; 4]),
    /// The sixteen entries, column after column.
    Matrix4d([Double; 16]),
    TokenVec(Vec<String>),
    StringVec(Vec<String>),
    TokenListOp(ListOp),
    PathListOp(ListOp),
    PathVec(Vec<String>),
    Other,
}

/// A [`Value`] with its text as character sequences.
pub ghost enum ValueView {
    Bool(bool),
    Int(i32),
    Int64(i64),
    Float(Single),
    Double(Double),
    Token(Seq<char>),
    String(Seq<char>),
    Vec3f([Single; 3]),
    Vec3d([Double; 3]),
    Quatf([Single; 4]),
    Quatd([Double; 4]),
    Matrix4d([Double; 16]),
    TokenVec(Seq<Seq<char>>),
    StringVec(Seq<Seq<char>>),
    TokenListOp(ListOpView),
    PathListOp(ListOpView),
    PathVec(Seq<Seq<char>>),
    Other,
}

impl View for Value {
    type V = ValueView;

    open spec fn view(&self) -> ValueView {
        match *self {
            Value::Bool(b) => ValueView::Bool(b),
            Value::Int(i) => ValueView::Int(i),
            Value::Int64(i) => ValueView::Int64(i),
            Value::Float(x) => ValueView::Float(x),
            Value::Double(x) => ValueView::Double(x),
            Value::Token(s) => ValueView::Token(s@),
            Value::String(s) => ValueView::String(s@),
            Value::Vec3f(a) => ValueView::Vec3f(a),
            Value::Vec3d(a) => ValueView::Vec3d(a),
            Value::Quatf(a) => ValueView::Quatf(a),
            Value::Quatd(a) => ValueView::Quatd(a),
            Value::Matrix4d(a) => ValueView::Matrix4d(a),
            Value::TokenVec(v) => ValueView::TokenVec(texts(v@)),
            Value::StringVec(v) => ValueView::StringVec(texts(v@)),
            Value::TokenListOp(op) => ValueView::TokenListOp(op@),
            Value::PathListOp(op) => ValueView::PathListOp(op@),
            Value::PathVec(v) => ValueView::PathVec(texts(v@)),
            Value::Other => ValueView::Other,
        }
    }
}

} // verus!
