// A trait whose implementors hand out mutable access to children that implement
// the same trait, down to a leaf type that ends the recursion.

pub trait Recurse {
    type Child: Recurse;

    fn child(&mut self) -> Option<&mut Vec<Self::Child>>;
    fn print(&self);
}

struct Bar;

struct Foo {
    children: Vec<Bar>,
}

impl Recurse for Foo {
    type Child = Bar;

    fn child(&mut self) -> Option<&mut Vec<Bar>> {
        Some(&mut self.children)
    }

    fn print(&self) {
        println!("foo");
    }
}

impl Recurse for Bar {
    type Child = ();

    fn child(&mut self) -> Option<&mut Vec<()>> {
        None
    }

    fn print(&self) {
        println!("bar");
    }
}

impl Recurse for () {
    type Child = ();

    fn child(&mut self) -> Option<&mut Vec<()>> {
        unreachable!()
    }

    fn print(&self) {
        unreachable!()
    }
}

#[test]
fn recursive_trait() {
    let mut foo = Foo {
        children: vec![Bar {}],
    };
    foo.print();
    foo.child().unwrap()[0].print();
    assert!(foo.child().unwrap()[0].child().is_none());
}
