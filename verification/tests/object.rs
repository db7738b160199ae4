use dang::eval::object::{CustomHash, Object};

#[test]
fn test_string_hash() {
        let hello_one = Object::String(String::from("Hello world"));
        let hello_two = Object::String(String::from("Hello world"));

        let diff_one = Object::String(String::from("My Name is Jonny"));
        let diff_two = Object::String(String::from("My Name is Konny"));

        assert_eq!(
            hello_one.hash().unwrap().value,
            hello_two.hash().unwrap().value
        );
        assert_ne!(
            diff_one.hash().unwrap().value,
            diff_two.hash().unwrap().value
        );
    }

#[test]
fn test_number_hash() {
        let hello_one = Object::Number(-1);
        let hello_two = Object::Number(-1);

        let diff_one = Object::Number(2);
        let diff_two = Object::Number(3);

        assert_eq!(
            hello_one.hash().unwrap().value,
            hello_two.hash().unwrap().value
        );
        assert_ne!(
            diff_one.hash().unwrap().value,
            diff_two.hash().unwrap().value
        );
    }
