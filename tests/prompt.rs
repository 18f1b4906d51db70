use wl::{get_in_prompt, get_out_prompt};

#[test]
fn plain_prompts() {
    assert_eq!(get_in_prompt(3, false), " In[3] := ");
    assert_eq!(get_in_prompt(-5, false), " In[-5] := ");
    assert_eq!(get_in_prompt(0, false), " In[0] := ");
    assert_eq!(get_out_prompt(12, false), "Out[12]  = ");
}

#[test]
fn colored_prompts() {
    let p = get_in_prompt(42, true);
    assert!(p == " In[42] := " || p == " \x1b[34mIn[\x1b[0m42\x1b[34m]\x1b[0m := ", "{:?}", p);
    let q = get_out_prompt(7, true);
    assert!(q == "Out[7]  = " || q == "\x1b[34mOut[\x1b[0m7\x1b[34m]\x1b[0m  = ", "{:?}", q);
}
