//! The descriptor model: an immutable catalogue of messages and fields.

use vstd::prelude::*;

verus! {

/// What a field holds: a scalar, or another message named by its full name.
#[derive(Debug, Clone, PartialEq, Eq)]
pub enum FieldType {
    Scalar,
    Message(String),
}

/// One field of a message.
#[derive(Debug, Clone, PartialEq, Eq)]
pub struct Field {
    pub name: String,
    pub target: FieldType,
    /// The field is a list: its values lie in a sequence container.
    pub repeated: bool,
    /// The field is a map: its values lie in a keyed container.
    pub map: bool,
    pub number: u32,
}

/// A named record type with its fields in declaration order.
#[derive(Debug, Clone, PartialEq, Eq)]
pub struct Message {
    pub name: String,
    pub fields: Vec<Field>,
}

/// The catalogue of all messages. A message is identified by its name; where
/// a name occurs twice the first message of that name is meant.
#[derive(Debug, Clone, PartialEq, Eq)]
pub struct Schema {
    pub messages: Vec<Message>,
}

/// Mathematical value of a [`Field`]: `target` is the name of the message
/// that the field holds, `None` for a scalar.
pub struct FieldModel {
    pub name: Seq<char>,
    pub target: Option<Seq<char>>,
    pub repeated: bool,
    pub map: bool,
    pub number: u32,
}

/// Mathematical value of a [`Message`].
pub struct MessageModel {
    pub name: Seq<char>,
    pub fields: Seq<FieldModel>,
}

/// Mathematical value of a [`Schema`].
pub struct SchemaModel {
    pub messages: Seq<MessageModel>,
}

impl View for Field {
    type V = FieldModel;

    open spec fn view(&self) -> FieldModel {
        FieldModel {
            name: self.name@,
            target: match self.target {
                FieldType::Message(name) => Some(name@),
                FieldType::Scalar => None,
            },
            repeated: self.repeated,
            map: self.map,
            number: self.number,
        }
    }
}

impl View for Message {
    type V = MessageModel;

    open spec fn view(&self) -> MessageModel {
        MessageModel {
            name: self.name@,
            fields: Seq::new(self.fields@.len(), |j: int| self.fields@[j]@),
        }
    }
}

impl View for Schema {
    type V = SchemaModel;

    open spec fn view(&self) -> SchemaModel {
        SchemaModel { messages: Seq::new(self.messages@.len(), |m: int| self.messages@[m]@) }
    }
}

impl FieldModel {
    /// The field holds a message.
    pub open spec fn is_reference(&self) -> bool {
        self.target is Some
    }

    /// The field holds a message outside any list: the containment graph
    /// has an edge for it. A map field counts, for the entry that it holds.
    pub open spec fn holds_by_value(&self) -> bool {
        self.target is Some && !self.repeated
    }

    /// The field holds exactly one message by value, in no container: the
    /// only kind of field that can need an indirection.
    pub open spec fn is_singular_reference(&self) -> bool {
        self.target is Some && !self.repeated && !self.map
    }

    /// Name of the message that the field holds; empty for a scalar.
    pub open spec fn target_name(&self) -> Seq<char> {
        match self.target {
            Some(name) => name,
            None => Seq::empty(),
        }
    }
}

impl SchemaModel {
    /// Number of messages.
    pub open spec fn size(&self) -> int {
        self.messages.len() as int
    }

    /// Index of the first message named `name` at or after `start`.
    pub open spec fn position_from(&self, name: Seq<char>, start: int) -> Option<int>
        decreases self.messages.len() - start,
    {
        if start < 0 || start >= self.messages.len() {
            None
        } else if self.messages[start].name == name {
            Some(start)
        } else {
            self.position_from(name, start + 1)
        }
    }

    /// Index of the message named `name`.
    pub open spec fn position(&self, name: Seq<char>) -> Option<int> {
        self.position_from(name, 0)
    }

    /// `position_from` finds the first message of that name, if there is one.
    pub proof fn lemma_position_from(&self, name: Seq<char>, start: int)
        requires
            0 <= start,
        ensures
            match self.position_from(name, start) {
                Some(i) => start <= i < self.size() && self.messages[i].name == name && forall|
                    j: int,
                | start <= j < i ==> self.messages[j].name != name,
                None => forall|j: int| start <= j < self.size() ==> self.messages[j].name != name,
            },
        decreases self.messages.len() - start,
    {
        if start < self.messages.len() && self.messages[start].name != name {
            self.lemma_position_from(name, start + 1);
        }
    }

    /// Every message-typed field of message `m` names a message of the schema.
    pub open spec fn message_resolves(&self, m: int) -> bool {
        forall|j: int|
            0 <= j < self.messages[m].fields.len() && (
            #[trigger] self.messages[m].fields[j]).is_reference() ==> self.position(
                self.messages[m].fields[j].target_name(),
            ) is Some
    }

    /// No field of the schema names a message that the schema lacks.
    pub open spec fn resolves(&self) -> bool {
        forall|m: int| 0 <= m < self.size() ==> #[trigger] self.message_resolves(m)
    }

    /// The messages that the first `j` fields of message `m` hold by value,
    /// in field order.
    pub open spec fn dependencies_upto(&self, m: int, j: int) -> Seq<int>
        decreases j,
    {
        if j <= 0 {
            Seq::empty()
        } else {
            let prev = self.dependencies_upto(m, j - 1);
            let f = self.messages[m].fields[j - 1];
            match self.position(f.target_name()) {
                Some(t) => if f.holds_by_value() {
                    prev.push(t)
                } else {
                    prev
                },
                None => prev,
            }
        }
    }

    /// The messages that message `m` holds by value, in field order.
    pub open spec fn dependencies(&self, m: int) -> Seq<int> {
        self.dependencies_upto(m, self.messages[m].fields.len() as int)
    }
}

impl Schema {
    /// Looks a message up by name.
    pub fn find(&self, name: &String) -> (r: Option<usize>)
        ensures
            match r {
                Some(i) => self@.position(name@) == Some(i as int) && i < self.messages@.len()
                    && self.messages@[i as int].name@ == name@,
                None => self@.position(name@) is None,
            },
    {
        let mut i: usize = 0;
        while i < self.messages.len()
            invariant
                i <= self.messages@.len(),
                self@.position(name@) == self@.position_from(name@, i as int),
            decreases self.messages@.len() - i,
        {
            if self.messages[i].name == *name {
                return Some(i);
            }
            i += 1;
        }
        None
    }
}

} // verus!
