use monmon::synchronised::{
    find_monitor_param, is_monitor_param, monitor_source, synchronised, Attribute, MacroError, MonitorSource,
    ParamShape,
};

fn squash(s: &str) -> String {
    s.chars().filter(|c| !c.is_whitespace()).collect()
}

#[test]
fn without_argument_takes_first_monitor_parameter() {
    assert_eq!(find_monitor_param(&vec![false, true, false, true]), Some(1));
    assert_eq!(find_monitor_param(&vec![true, false]), Some(0));
    assert_eq!(find_monitor_param(&vec![false, false]), None);
    match monitor_source(Attribute::Empty, &vec![false, true, true]) {
        Ok(MonitorSource::Param(1)) => {}
        _ => panic!("expected the second parameter"),
    }
}

#[test]
fn without_argument_or_monitor_parameter_is_refused() {
    match monitor_source(Attribute::Empty, &vec![false]) {
        Err(e) => {
            assert_eq!(e, MacroError::NoMonitorArgument);
            assert_eq!(e.message(), "No argument of type &impl Monitor found");
        }
        Ok(_) => panic!("expected a refusal"),
    }
}

#[test]
fn argument_expression_is_used_as_given() {
    match monitor_source(Attribute::Field("self.monitor".to_string()), &vec![]) {
        Ok(MonitorSource::Expr(e)) => assert_eq!(e, "self.monitor"),
        _ => panic!("expected the field"),
    }
    match monitor_source(Attribute::Reference("self.monitor".to_string()), &vec![true]) {
        Ok(MonitorSource::Expr(e)) => assert_eq!(e, "self.monitor"),
        _ => panic!("expected the referenced expression"),
    }
    match monitor_source(Attribute::Path("monitor".to_string()), &vec![]) {
        Ok(MonitorSource::Expr(e)) => assert_eq!(e, "monitor"),
        _ => panic!("expected the path"),
    }
}

#[test]
fn other_arguments_are_refused() {
    match monitor_source(Attribute::Other, &vec![true]) {
        Err(e) => assert_eq!(e.message(), "Attribute expression must be a path, reference, or field access"),
        Ok(_) => panic!("expected a refusal"),
    }
    match monitor_source(Attribute::Unparsable, &vec![true]) {
        Err(e) => assert_eq!(e, MacroError::UnparsableAttribute),
        Ok(_) => panic!("expected a refusal"),
    }
}

#[test]
fn monitor_parameter_needs_reference_to_impl_with_monitor_bound() {
    let p = |r: bool, b: &[&str]| ParamShape {
        pattern: "m".to_string(),
        ref_to_impl: r,
        bounds: b.iter().map(|s| s.to_string()).collect(),
    };
    assert!(is_monitor_param(&p(true, &["Send", "Monitor"])));
    assert!(!is_monitor_param(&p(false, &["Monitor"])));
    assert!(!is_monitor_param(&p(true, &["Send"])));
}

#[test]
fn wraps_body_with_first_monitor_parameter() {
    let out = synchronised("", "fn f(a: &impl Monitor, b: &impl Monitor) { g(); }").unwrap();
    assert_eq!(squash(&out), "fnf(a:&implMonitor,b:&implMonitor){a.enter();{g();}a.leave();}");
}

#[test]
fn wraps_body_with_attribute_expression() {
    let out = synchronised("& self . monitor", "pub fn increment(&self) { work(); }").unwrap();
    assert_eq!(squash(&out), "pubfnincrement(&self){self.monitor.enter();{work();}self.monitor.leave();}");
    let out = synchronised("self.monitor", "fn h(&self, x: u32) { x; }").unwrap();
    assert_eq!(squash(&out), "fnh(&self,x:u32){self.monitor.enter();{x;}self.monitor.leave();}");
}

#[test]
fn skips_parameters_that_are_not_monitors() {
    let out = synchronised("", "fn f(x: &impl Send, y: &dyn Monitor, m: &impl Monitor) { }").unwrap();
    assert_eq!(squash(&out), "fnf(x:&implSend,y:&dynMonitor,m:&implMonitor){m.enter();{}m.leave();}");
    let out = synchronised("", "fn f(p: &(impl Send + Monitor), n: &impl Monitor) { }").unwrap();
    assert_eq!(squash(&out), "fnf(p:&(implSend+Monitor),n:&implMonitor){n.enter();{}n.leave();}");
}

#[test]
fn refusals_of_the_attribute() {
    assert_eq!(synchronised("", "fn f(x: u32) {}"), Err(MacroError::NoMonitorArgument));
    assert_eq!(synchronised("a +", "fn f(a: &impl Monitor) {}"), Err(MacroError::UnparsableAttribute));
    assert_eq!(synchronised("a + b", "fn f(a: &impl Monitor) {}"), Err(MacroError::UnsupportedAttribute));
    let syn_message = match syn::parse_str::<syn::ItemFn>("struct S;") {
        Err(e) => e.to_string(),
        Ok(_) => panic!("a struct is not a function"),
    };
    match synchronised("", "struct S;") {
        Err(e) => {
            assert_eq!(e, MacroError::InvalidItem(syn_message.clone()));
            assert_eq!(e.message(), syn_message);
        }
        Ok(_) => panic!("expected a refusal"),
    }
}
