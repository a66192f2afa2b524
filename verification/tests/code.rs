use dada::code::{Code, Effect, Filename, TokenTree};
use dada::run::{Kernel, Options};

#[test]
fn code_new_keeps_its_fields() {
    let body = TokenTree { filename: Filename { word: 11 } };
    let params = TokenTree { filename: Filename { word: 11 } };
    let code = Code::new(Effect::Async, Some(params), body);
    assert_eq!(code.effect, Effect::Async);
    assert_eq!(code.parameter_tokens, Some(params));
    assert_eq!(code.body_tokens, body);
}

#[test]
fn code_filename_is_the_body_file() {
    let body = TokenTree { filename: Filename { word: 42 } };
    let code = Code::new(Effect::Default, None, body);
    assert_eq!(code.filename(), Filename { word: 42 });
}

#[test]
fn options_keep_the_path() {
    let options = Options::new(String::from("program.dada"));
    assert_eq!(options.path, "program.dada");
}

#[test]
fn kernel_is_constructible() {
    let _kernel = Kernel::new();
}
