//! Heap objects.

use crate::object_pointer::ObjectPointer;
use crate::object_value::{ObjectValue, ObjectValueView};
use vstd::prelude::*;

verus! {

/// A named attribute of an object.
#[derive(Debug)]
pub struct Attribute {
    pub name: String,
    pub value: ObjectPointer,
}

/// What a pointer points to: a prototype, named attributes and a payload.
#[derive(Debug)]
pub struct Object {
    pub prototype: Option<ObjectPointer>,
    pub attributes: Vec<Attribute>,
    pub value: ObjectValue,
}

/// The mathematical value of an [`Object`].
pub ghost struct ObjectView {
    pub prototype: Option<ObjectPointer>,
    pub attributes: Seq<(Seq<char>, ObjectPointer)>,
    pub value: ObjectValueView,
}

impl View for Object {
    type V = ObjectView;

    open spec fn view(&self) -> ObjectView {
        ObjectView {
            prototype: self.prototype,
            attributes: Seq::new(
                self.attributes@.len(),
                |i: int| (self.attributes@[i].name@, self.attributes@[i].value),
            ),
            value: self.value@,
        }
    }
}

impl Object {
    /// An object without prototype and attributes.
    pub fn new(value: ObjectValue) -> (object: Object)
        ensures
            object@ == (ObjectView { prototype: None, attributes: Seq::empty(), value: value@ }),
    {
        let object = Object { prototype: None, attributes: Vec::new(), value };
        assert(object@.attributes =~= Seq::empty());
        object
    }

    /// An object with a prototype and without attributes.
    pub fn with_prototype(value: ObjectValue, prototype: ObjectPointer) -> (object: Object)
        ensures
            object@ == (ObjectView {
                prototype: Some(prototype),
                attributes: Seq::empty(),
                value: value@,
            }),
    {
        let object = Object { prototype: Some(prototype), attributes: Vec::new(), value };
        assert(object@.attributes =~= Seq::empty());
        object
    }

    /// Adds an attribute after the ones that the object has.
    pub fn add_attribute(&mut self, name: String, value: ObjectPointer)
        ensures
            final(self)@ == (ObjectView {
                attributes: old(self)@.attributes.push((name@, value)),
                ..old(self)@
            }),
    {
        self.attributes.push(Attribute { name, value });
        assert(self@.attributes =~= old(self)@.attributes.push((name@, value)));
    }
}

impl ObjectView {
    /// The pointers that the object holds: its prototype, the values of its
    /// attributes, and the items of its payload where that is an array.
    pub open spec fn pointers(self) -> Seq<ObjectPointer> {
        self.prototype_pointers() + self.attribute_pointers() + self.value_pointers()
    }

    /// The prototype, where the object has one.
    pub open spec fn prototype_pointers(self) -> Seq<ObjectPointer> {
        match self.prototype {
            Some(prototype) => seq![prototype],
            None => Seq::empty(),
        }
    }

    /// The values of the attributes, in their order.
    pub open spec fn attribute_pointers(self) -> Seq<ObjectPointer> {
        Seq::new(self.attributes.len(), |i: int| self.attributes[i].1)
    }

    /// The items of the payload, where it is an array.
    pub open spec fn value_pointers(self) -> Seq<ObjectPointer> {
        match self.value {
            ObjectValueView::Array(items) => items,
            _ => Seq::empty(),
        }
    }

    /// The object with `pointers` in the place of the pointers that it
    /// holds, in the order of [`ObjectView::pointers`], and everything else
    /// as it is.
    pub open spec fn with_pointers(self, pointers: Seq<ObjectPointer>) -> ObjectView
        recommends
            pointers.len() == self.pointers().len(),
    {
        let first_attribute = self.prototype_pointers().len() as int;
        let first_item = first_attribute + self.attributes.len();
        ObjectView {
            prototype: match self.prototype {
                Some(_) => Some(pointers[0]),
                None => None,
            },
            attributes: Seq::new(
                self.attributes.len(),
                |i: int| (self.attributes[i].0, pointers[first_attribute + i]),
            ),
            value: match self.value {
                ObjectValueView::Array(_) => ObjectValueView::Array(
                    pointers.subrange(first_item, pointers.len() as int),
                ),
                value => value,
            },
        }
    }

    /// Whether two objects are the same but for the pointers they hold:
    /// both have a prototype or neither has, they have attributes of the
    /// same names, and payloads that are equal or arrays of one length.
    pub open spec fn same_but_pointers(self, other: ObjectView) -> bool {
        &&& self.prototype is Some <==> other.prototype is Some
        &&& self.attributes.len() == other.attributes.len()
        &&& forall|i: int|
            0 <= i < self.attributes.len() ==> (#[trigger] self.attributes[i]).0
                == other.attributes[i].0
        &&& match self.value {
            ObjectValueView::Array(items) => other.value is Array && other.value->Array_0.len()
                == items.len(),
            value => other.value == value,
        }
    }
}

/// Putting pointers in the place of the pointers of an object gives an
/// object that holds those pointers and is otherwise the same.
pub proof fn lemma_with_pointers(object: ObjectView, pointers: Seq<ObjectPointer>)
    requires
        pointers.len() == object.pointers().len(),
    ensures
        object.with_pointers(pointers).pointers() == pointers,
        object.same_but_pointers(object.with_pointers(pointers)),
{
    let copy = object.with_pointers(pointers);
    assert(copy.pointers() =~= pointers);
}

impl Object {
    /// The pointers that the object holds.
    pub fn pointers(&self) -> (pointers: Vec<ObjectPointer>)
        ensures
            pointers@ == self@.pointers(),
    {
        let mut pointers: Vec<ObjectPointer> = Vec::new();
        match self.prototype {
            Some(prototype) => {
                pointers.push(prototype);
            },
            None => {},
        }
        assert(pointers@ =~= self@.prototype_pointers());
        let mut index: usize = 0;
        while index < self.attributes.len()
            invariant
                index <= self.attributes@.len(),
                pointers@ == self@.prototype_pointers() + self@.attribute_pointers().take(
                    index as int,
                ),
            decreases self.attributes.len() - index,
        {
            pointers.push(self.attributes[index].value);
            index = index + 1;
            assert(pointers@ =~= self@.prototype_pointers() + self@.attribute_pointers().take(
                index as int,
            ));
        }
        assert(self@.attribute_pointers().take(index as int) =~= self@.attribute_pointers());
        match &self.value {
            ObjectValue::Array(items) => {
                let mut index: usize = 0;
                while index < items.len()
                    invariant
                        index <= items@.len(),
                        self@.value_pointers() == items@,
                        pointers@ == self@.prototype_pointers() + self@.attribute_pointers()
                            + items@.take(index as int),
                    decreases items.len() - index,
                {
                    pointers.push(items[index]);
                    index = index + 1;
                    assert(pointers@ =~= self@.prototype_pointers() + self@.attribute_pointers()
                        + items@.take(index as int));
                }
                assert(items@.take(index as int) =~= items@);
            },
            _ => {
                assert(pointers@ =~= self@.pointers());
            },
        }
        pointers
    }

    /// A copy of the object with `pointers` in the place of the pointers
    /// that it holds.
    pub fn with_pointers(&self, pointers: &Vec<ObjectPointer>) -> (copy: Object)
        requires
            pointers@.len() == self@.pointers().len(),
        ensures
            copy@ == self@.with_pointers(pointers@),
    {
        let mut position: usize = 0;
        let prototype = match self.prototype {
            Some(_) => {
                position = 1;
                Some(pointers[0])
            },
            None => None,
        };
        let first_attribute = position;
        let mut attributes: Vec<Attribute> = Vec::new();
        let mut index: usize = 0;
        while index < self.attributes.len()
            invariant
                index <= self.attributes@.len(),
                first_attribute == self@.prototype_pointers().len(),
                pointers@.len() == self@.pointers().len(),
                attributes@.len() == index,
                forall|i: int|
                    0 <= i < index ==> (#[trigger] attributes@[i]).name@
                        == self.attributes@[i].name@ && attributes@[i].value
                        == pointers@[first_attribute + i],
            decreases self.attributes.len() - index,
        {
            let name = self.attributes[index].name.clone();
            attributes.push(Attribute { name, value: pointers[first_attribute + index] });
            index = index + 1;
        }
        assert(self@.pointers().len() == first_attribute + self.attributes@.len()
            + self@.value_pointers().len());
        assert(pointers.len() <= usize::MAX);
        let first_item = first_attribute + self.attributes.len();
        let value = match &self.value {
            ObjectValue::Empty => ObjectValue::Empty,
            ObjectValue::Integer(number) => ObjectValue::Integer(*number),
            ObjectValue::Float(number) => ObjectValue::Float(*number),
            ObjectValue::String(text) => ObjectValue::String(text.clone()),
            ObjectValue::Array(items) => {
                let mut copies: Vec<ObjectPointer> = Vec::new();
                let mut index: usize = 0;
                while index < items.len()
                    invariant
                        index <= items@.len(),
                        first_item + items@.len() == pointers@.len(),
                        pointers@.len() <= usize::MAX,
                        copies@ == pointers@.subrange(first_item as int, first_item + index),
                    decreases items.len() - index,
                {
                    copies.push(pointers[first_item + index]);
                    index = index + 1;
                    assert(copies@ =~= pointers@.subrange(first_item as int, first_item + index));
                }
                ObjectValue::Array(copies)
            },
        };
        let copy = Object { prototype, attributes, value };
        assert(copy@.attributes =~= self@.with_pointers(pointers@).attributes);
        copy
    }
}

} // verus!
